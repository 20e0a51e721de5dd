//! Desktop notifications: each named notification replaces its former one.

use vstd::prelude::*;
use crate::text::{owned, strings_view};
use crate::vars::NameMap;

verus! {

/// The ids the notification daemon gave, by notification name.
#[derive(Debug)]
pub struct Notifier {
    pub ids: NameMap<u32>,
}

impl Notifier {
    /// No notification sent yet.
    pub fn new() -> (r: Self)
        ensures
            r.ids@ == Map::<Seq<char>, u32>::empty(),
    {
        Notifier { ids: NameMap::new() }
    }

    /// The arguments of `notify-send`: `-p` to print the id, `-r <id>` to
    /// replace the notification of the name when there was one, then the
    /// summary and the body.
    pub fn notify_args(&self, name: &str, summary: &str, body: &str) -> (r: Vec<String>)
        ensures
            strings_view(r@) == seq![seq!['-', 'p']]
                + (if self.ids@.contains_key(name@) {
                    seq![seq!['-', 'r'], crate::decimal::decimal(self.ids@[name@] as nat)]
                } else {
                    Seq::<Seq<char>>::empty()
                })
                + seq![summary@, body@],
    {
        let p = "-p";
        let rr = "-r";
        proof {
            reveal_strlit("-p");
            reveal_strlit("-r");
            assert(p@ =~= seq!['-', 'p']);
            assert(rr@ =~= seq!['-', 'r']);
        }
        let mut r: Vec<String> = Vec::new();
        r.push(owned(p));
        match self.ids.get(name) {
            Some(id) => {
                r.push(owned(rr));
                r.push(crate::decimal::u32_to_string(*id));
            },
            None => {},
        }
        r.push(owned(summary));
        r.push(owned(body));
        assert(strings_view(r@) =~= seq![seq!['-', 'p']]
            + (if self.ids@.contains_key(name@) {
                seq![seq!['-', 'r'], crate::decimal::decimal(self.ids@[name@] as nat)]
            } else {
                Seq::<Seq<char>>::empty()
            })
            + seq![summary@, body@]);
        r
    }

    /// Records the id `notify-send` printed for a name, when its output
    /// (trimmed) is a number.
    pub fn record_id(&mut self, name: &str, output: &str)
        ensures
            match crate::decimal::spec_parse_u32(crate::text::trim_spec(output@)) {
                Some(id) => final(self).ids@ == old(self).ids@.insert(name@, id),
                None => final(self).ids@ == old(self).ids@,
            },
    {
        let t = crate::text::trim(output);
        match crate::decimal::parse_u32(t.as_str()) {
            Some(id) => self.ids.insert(owned(name), id),
            None => {},
        }
    }
}

} // verus!
