use vstd::prelude::*;

use crate::text::str_eq;

verus! {

/// What a loaded image is found again by: its file and the height it was
/// fitted to.
#[derive(Debug)]
pub struct ImageKey {
    file_name: String,
    fit_to_height: u32,
}

impl ImageKey {
    /// The file name and the height.
    pub closed spec fn view(&self) -> (Seq<char>, u32) {
        (self.file_name@, self.fit_to_height)
    }

    /// The key of a file fitted to a height (the height in whole pixels).
    pub fn new(file_name: &str, fit_to_height: u32) -> (r: Self)
        ensures
            r@ == (file_name@, fit_to_height),
    {
        ImageKey { file_name: file_name.to_string(), fit_to_height }
    }

    /// Whether two keys name the same file at the same height.
    pub fn same(&self, other: &ImageKey) -> (r: bool)
        ensures
            r == (self@ == other@),
    {
        str_eq(self.file_name.as_str(), other.file_name.as_str()) && self.fit_to_height
            == other.fit_to_height
    }
}

/// What a drawing pass paints: everything, or only the window's shape (no
/// text is laid out, and backgrounds are either fully opaque or absent).
#[derive(PartialEq, Eq, Structural, Clone, Copy, Debug)]
pub enum Mode {
    Full,
    Shape,
}

/// The image that `cache` holds for the key `k`: the last pair stored under it.
pub open spec fn cached_in<I>(cache: Seq<(ImageKey, I)>, k: (Seq<char>, u32)) -> Option<I>
    decreases cache.len(),
{
    if cache.len() == 0 {
        None
    } else if cache.last().0@ == k {
        Some(cache.last().1)
    } else {
        cached_in(cache.drop_last(), k)
    }
}

/// Images already loaded, by key. `I` is the image type of the drawing
/// backend; loading and decoding a file is left to the caller.
pub struct ImageLoader<I> {
    cache: Vec<(ImageKey, I)>,
}

impl<I> ImageLoader<I> {
    /// The image held for a key, if any.
    pub closed spec fn cached(&self, k: (Seq<char>, u32)) -> Option<I> {
        cached_in(self.cache@, k)
    }

    /// A loader that holds no image.
    pub fn new() -> (r: Self)
        ensures
            forall|k: (Seq<char>, u32)| #[trigger] r.cached(k) is None,
    {
        ImageLoader { cache: Vec::new() }
    }

    /// The image to reuse for `key`: the one held for it when caching is on,
    /// none when it is off (then the image is loaded every time).
    pub fn lookup(&self, key: &ImageKey, cache_images: bool) -> (r: Option<&I>)
        ensures
            match r {
                Some(image) => cache_images && self.cached(key@) == Some(*image),
                None => !cache_images || self.cached(key@) is None,
            },
    {
        if !cache_images {
            return None;
        }
        let ghost s = self.cache@;
        let mut i: usize = self.cache.len();
        assert(s.take(i as int) =~= s);
        while i > 0
            invariant
                i <= s.len(),
                cache_images,
                self.cache@ == s,
                cached_in(s, key@) == cached_in(s.take(i as int), key@),
            decreases i,
        {
            assert(s.take(i as int).last() == s[i - 1]);
            assert(s.take(i as int).drop_last() =~= s.take(i - 1));
            if self.cache[i - 1].0.same(key) {
                return Some(&self.cache[i - 1].1);
            }
            i -= 1;
        }
        None
    }

    /// Keeps a freshly loaded image for `key` when caching is on, replacing
    /// any image held for it; changes nothing when caching is off.
    pub fn remember(&mut self, key: ImageKey, image: I, cache_images: bool)
        ensures
            forall|k: (Seq<char>, u32)| #[trigger] final(self).cached(k) == if cache_images && k == key@ {
                Some(image)
            } else {
                old(self).cached(k)
            },
    {
        if !cache_images {
            return;
        }
        let mut rest: Vec<(ImageKey, I)> = Vec::new();
        std::mem::swap(&mut rest, &mut self.cache);
        let ghost orig = rest@;
        let mut kept: Vec<(ImageKey, I)> = Vec::new();
        let mut n: usize = 0;
        let total: usize = rest.len();
        assert(orig.subrange(0, orig.len() as int) =~= orig);
        while rest.len() > 0
            invariant
                n <= orig.len(),
                orig.len() == total,
                rest@.len() == orig.len() - n,
                rest@ == orig.subrange(n as int, orig.len() as int),
                forall|k: (Seq<char>, u32)| k != key@ ==> #[trigger] cached_in(kept@, k) == cached_in(orig.take(n as int), k),
            decreases rest@.len(),
        {
            let e = rest.remove(0);
            let ghost before = kept@;
            assert(e == orig[n as int]);
            assert(orig.take(n + 1).last() == orig[n as int]);
            assert(orig.take(n + 1).drop_last() =~= orig.take(n as int));
            let keep = !e.0.same(&key);
            if keep {
                kept.push(e);
            }
            proof {
                let t = orig.take(n + 1);
                assert(t.len() > 0);
                assert forall|k: (Seq<char>, u32)| k != key@ implies #[trigger] cached_in(kept@, k)
                    == cached_in(t, k) by {
                    assert(cached_in(before, k) == cached_in(orig.take(n as int), k));
                    if keep {
                        assert(kept@.drop_last() == before);
                        assert(kept@.last() == orig[n as int]);
                        assert(kept@.len() > 0);
                    } else {
                        assert(orig[n as int].0@ == key@);
                        assert(kept@ == before);
                    }
                }
            }
            n += 1;
            assert(rest@ =~= orig.subrange(n as int, orig.len() as int));
        }
        assert(orig.take(n as int) =~= orig);
        let ghost before = kept@;
        kept.push((key, image));
        proof {
            assert(kept@.drop_last() == before);
            assert(kept@.last().0@ == key@);
            assert forall|k: (Seq<char>, u32)| #[trigger] cached_in(kept@, k) == if k == key@ {
                Some(image)
            } else {
                cached_in(orig, k)
            } by {
                assert(kept@.len() > 0);
                assert(kept@.last().1 == image);
                if k != key@ {
                    assert(cached_in(before, k) == cached_in(orig, k));
                }
            }
        }
        self.cache = kept;
    }
}

} // verus!
