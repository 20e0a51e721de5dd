//! Placeholder expressions: text with `${name|filter:args|...}` variables that
//! are resolved against a set of variables.

use vstd::prelude::*;
use crate::decimal::{parse_usize_range, spec_parse_usize};
use crate::text::{
    blank, chars_of, is_ws, find_char, find_char_in, is_blank, lemma_find_char,
    owned, push_char, push_str, range_equals, str_eq, skip_end, skip_start, string_of,
    trim_range, trim_spec, trim_start_spec,
};

verus! {

/// Why an expression was refused.
#[derive(Debug)]
pub enum ParseError {
    /// A `${` without a matching `}`.
    UnclosedPlaceholder,
    /// A `$` as the last character of the expression.
    TrailingDollar,
    /// A filter whose name is not `def`, `align` or `max`; holds the name.
    UnknownFilter(String),
    /// A filter without `:`; holds the filter text.
    BadFilterFormat(String),
    /// An `align` argument without `<`, `>` or `^`; holds the argument.
    BadAlignFormat(String),
    /// A width or length that is not a decimal number; holds the text.
    BadNumber(String),
}

/// An expression that could not be read, and why.
#[derive(Debug)]
pub struct ExpressionError {
    /// The expression as given.
    pub expression: String,
    pub cause: ParseError,
}

/// `ParseError` with its texts as character sequences.
pub enum ParseErrorV {
    UnclosedPlaceholder,
    TrailingDollar,
    UnknownFilter(Seq<char>),
    BadFilterFormat(Seq<char>),
    BadAlignFormat(Seq<char>),
    BadNumber(Seq<char>),
}

impl View for ParseError {
    type V = ParseErrorV;

    open spec fn view(&self) -> ParseErrorV {
        match self {
            ParseError::UnclosedPlaceholder => ParseErrorV::UnclosedPlaceholder,
            ParseError::TrailingDollar => ParseErrorV::TrailingDollar,
            ParseError::UnknownFilter(s) => ParseErrorV::UnknownFilter(s@),
            ParseError::BadFilterFormat(s) => ParseErrorV::BadFilterFormat(s@),
            ParseError::BadAlignFormat(s) => ParseErrorV::BadAlignFormat(s@),
            ParseError::BadNumber(s) => ParseErrorV::BadNumber(s@),
        }
    }
}

/// Where an aligned value goes within its width.
#[derive(Debug, Clone, Copy, PartialEq, Eq, Structural)]
pub enum AlignDirection {
    Left,
    Center,
    Right,
}

/// The `align` filter: pads a value with `space` (a blank when absent) up to
/// `width` characters.
#[derive(Debug, Clone, Copy, PartialEq, Eq, Structural)]
pub struct Align {
    pub direction: AlignDirection,
    pub space: Option<char>,
    pub width: usize,
}

/// One filter applied to a variable's value.
#[derive(Debug)]
pub enum Filter {
    /// `def:text`: `text` when the value is blank.
    DefaultValue(String),
    /// `max:n`: at most `n` characters, with `...` when shortened.
    Max(usize),
    /// `align:<fill><dir><width>`.
    Align(Align),
}

/// `Filter` with its text as a character sequence.
pub enum FilterV {
    DefaultValue(Seq<char>),
    Max(usize),
    Align(Align),
}

impl View for Filter {
    type V = FilterV;

    open spec fn view(&self) -> FilterV {
        match self {
            Filter::DefaultValue(s) => FilterV::DefaultValue(s@),
            Filter::Max(n) => FilterV::Max(*n),
            Filter::Align(a) => FilterV::Align(*a),
        }
    }
}

impl Clone for Filter {
    fn clone(&self) -> (r: Self)
        ensures
            r@ == self@,
    {
        match self {
            Filter::DefaultValue(s) => Filter::DefaultValue(s.clone()),
            Filter::Max(n) => Filter::Max(*n),
            Filter::Align(a) => Filter::Align(*a),
        }
    }
}

/// The three characters `...` that end a shortened value.
pub open spec fn ellipsis() -> Seq<char> {
    seq!['.', '.', '.']
}

/// `n` copies of `c`.
pub open spec fn repeat(c: char, n: nat) -> Seq<char> {
    Seq::new(n, |_i: int| c)
}

/// What `align` makes of `input`: the missing width split by the direction,
/// the odd character going to the right when centering. An input at least as
/// wide as `width` is left as it is.
pub open spec fn spec_align_apply(a: Align, input: Seq<char>) -> Seq<char> {
    let gap: nat = if a.width >= input.len() { (a.width - input.len()) as nat } else { 0 };
    let fill = match a.space {
        Some(c) => c,
        None => ' ',
    };
    let left: nat = match a.direction {
        AlignDirection::Left => 0,
        AlignDirection::Right => gap,
        AlignDirection::Center => gap / 2,
    };
    let right: nat = match a.direction {
        AlignDirection::Left => gap,
        AlignDirection::Right => 0,
        AlignDirection::Center => gap / 2 + gap % 2,
    };
    repeat(fill, left) + input + repeat(fill, right)
}

/// What a filter makes of a value.
pub open spec fn spec_filter_apply(f: FilterV, input: Seq<char>) -> Seq<char> {
    match f {
        FilterV::DefaultValue(d) => if is_blank(input) { d } else { input },
        FilterV::Max(m) => if input.len() > m {
            input.take(if m >= 3 { m - 3 } else { 0 }) + ellipsis()
        } else {
            input
        },
        FilterV::Align(a) => spec_align_apply(a, input),
    }
}

/// The direction a character selects: `<` left, `>` right, `^` center.
pub open spec fn align_direction(c: char) -> Option<AlignDirection> {
    if c == '<' {
        Some(AlignDirection::Left)
    } else if c == '>' {
        Some(AlignDirection::Right)
    } else if c == '^' {
        Some(AlignDirection::Center)
    } else {
        None
    }
}

/// The argument of `align`: the filler, then the direction, then the width;
/// the filler may be left out, and then the direction comes first.
pub open spec fn spec_align_parse(e: Seq<char>) -> Result<Align, ParseErrorV> {
    let head = if e.len() >= 2 && align_direction(e[1]) is Some {
        Some((Some(e[0]), align_direction(e[1])->0, 2int))
    } else if e.len() >= 1 && align_direction(e[0]) is Some {
        Some((None::<char>, align_direction(e[0])->0, 1int))
    } else {
        None
    };
    match head {
        None => Err(ParseErrorV::BadAlignFormat(e)),
        Some((space, direction, k)) => match spec_parse_usize(e.skip(k)) {
            Some(width) => Ok(Align { direction, space, width }),
            None => Err(ParseErrorV::BadNumber(e.skip(k))),
        },
    }
}

/// The characters `def`.
pub open spec fn def_name() -> Seq<char> {
    seq!['d', 'e', 'f']
}

/// The characters `align`.
pub open spec fn align_name() -> Seq<char> {
    seq!['a', 'l', 'i', 'g', 'n']
}

/// The characters `max`.
pub open spec fn max_name() -> Seq<char> {
    seq!['m', 'a', 'x']
}

/// How one filter is read: leading whitespace dropped, then `name:args`.
pub open spec fn spec_filter_parse(e: Seq<char>) -> Result<FilterV, ParseErrorV> {
    let t = trim_start_spec(e);
    match find_char(t, ':') {
        None => Err(ParseErrorV::BadFilterFormat(e)),
        Some(i) => {
            let name = t.take(i);
            let arg = t.skip(i + 1);
            if name == def_name() {
                Ok(FilterV::DefaultValue(arg))
            } else if name == align_name() {
                match spec_align_parse(arg) {
                    Ok(a) => Ok(FilterV::Align(a)),
                    Err(x) => Err(x),
                }
            } else if name == max_name() {
                match spec_parse_usize(arg) {
                    Some(n) => Ok(FilterV::Max(n)),
                    None => Err(ParseErrorV::BadNumber(arg)),
                }
            } else {
                Err(ParseErrorV::UnknownFilter(name))
            }
        },
    }
}

/// `n` copies of `c` appended to `s`.
fn push_repeat(s: &mut String, c: char, n: usize)
    ensures
        final(s)@ == old(s)@ + repeat(c, n as nat),
{
    let mut i: usize = 0;
    while i < n
        invariant
            i <= n,
            s@ == old(s)@ + repeat(c, i as nat),
        decreases n - i,
    {
        push_char(s, c);
        assert(repeat(c, (i + 1) as nat) == repeat(c, i as nat).push(c));
        i += 1;
    }
}

fn direction_of(c: char) -> (r: Option<AlignDirection>)
    ensures
        r == align_direction(c),
{
    if c == '<' {
        Some(AlignDirection::Left)
    } else if c == '>' {
        Some(AlignDirection::Right)
    } else if c == '^' {
        Some(AlignDirection::Center)
    } else {
        None
    }
}

impl Align {
    /// Reads the argument of `align` from `v[from..to]`.
    pub fn parse_range(v: &Vec<char>, from: usize, to: usize) -> (r: Result<Align, ParseError>)
        requires
            from <= to <= v@.len(),
        ensures
            match r {
                Ok(a) => spec_align_parse(v@.subrange(from as int, to as int)) == Ok::<Align, ParseErrorV>(a),
                Err(x) => spec_align_parse(v@.subrange(from as int, to as int)) == Err::<Align, ParseErrorV>(x@),
            },
    {
        let ghost e = v@.subrange(from as int, to as int);
        let second = if to - from >= 2 {
            direction_of(v[from + 1])
        } else {
            None
        };
        let head = match second {
            Some(d) => Some((Some(v[from]), d, from + 2)),
            None => {
                let first = if to - from >= 1 {
                    direction_of(v[from])
                } else {
                    None
                };
                match first {
                    Some(d) => Some((None, d, from + 1)),
                    None => None,
                }
            },
        };
        match head {
            None => Err(ParseError::BadAlignFormat(string_of(v, from, to))),
            Some((space, direction, k)) => {
                assert(e.skip(k - from) =~= v@.subrange(k as int, to as int));
                match parse_usize_range(v, k, to) {
                    Some(width) => Ok(Align { direction, space, width }),
                    None => Err(ParseError::BadNumber(string_of(v, k, to))),
                }
            },
        }
    }

    /// Pads `input` as the filter asks.
    pub fn apply(&self, input: &str) -> (r: String)
        ensures
            r@ == spec_align_apply(*self, input@),
    {
        let len = chars_of(input).len();
        let gap = if self.width >= len { self.width - len } else { 0 };
        let (left, right) = match self.direction {
            AlignDirection::Left => (0, gap),
            AlignDirection::Right => (gap, 0),
            AlignDirection::Center => (gap / 2, gap / 2 + gap % 2),
        };
        let fill = match self.space {
            Some(c) => c,
            None => ' ',
        };
        let mut result = String::new();
        push_repeat(&mut result, fill, left);
        push_str(&mut result, input);
        push_repeat(&mut result, fill, right);
        result
    }
}

impl Filter {
    /// Reads one filter from `v[from..to]`.
    pub fn parse_range(v: &Vec<char>, from: usize, to: usize) -> (r: Result<Filter, ParseError>)
        requires
            from <= to <= v@.len(),
        ensures
            match r {
                Ok(f) => spec_filter_parse(v@.subrange(from as int, to as int)) == Ok::<FilterV, ParseErrorV>(f@),
                Err(x) => spec_filter_parse(v@.subrange(from as int, to as int)) == Err::<FilterV, ParseErrorV>(x@),
            },
    {
        let ghost e = v@.subrange(from as int, to as int);
        let start = skip_start(v, from, to);
        let ghost t = v@.subrange(start as int, to as int);
        match find_char_in(v, start, to, ':') {
            None => Err(ParseError::BadFilterFormat(string_of(v, from, to))),
            Some(c) => {
                proof {
                    lemma_find_char(t, ':');
                }
                assert(t.take(c - start) == v@.subrange(start as int, c as int));
                assert(t.skip(c - start + 1) == v@.subrange(c + 1, to as int));
                if range_equals(v, start, c, &vec!['d', 'e', 'f']) {
                    Ok(Filter::DefaultValue(string_of(v, c + 1, to)))
                } else if range_equals(v, start, c, &vec!['a', 'l', 'i', 'g', 'n']) {
                    match Align::parse_range(v, c + 1, to) {
                        Ok(a) => Ok(Filter::Align(a)),
                        Err(x) => Err(x),
                    }
                } else if range_equals(v, start, c, &vec!['m', 'a', 'x']) {
                    match parse_usize_range(v, c + 1, to) {
                        Some(n) => Ok(Filter::Max(n)),
                        None => Err(ParseError::BadNumber(string_of(v, c + 1, to))),
                    }
                } else {
                    Err(ParseError::UnknownFilter(string_of(v, start, c)))
                }
            },
        }
    }

    /// Applies the filter to a value.
    pub fn apply(&self, input: &str) -> (r: String)
        ensures
            r@ == spec_filter_apply(self@, input@),
    {
        match self {
            Filter::DefaultValue(d) => {
                if blank(input) {
                    d.clone()
                } else {
                    owned(input)
                }
            },
            Filter::Max(m) => {
                let v = chars_of(input);
                if v.len() > *m {
                    let keep = if *m >= 3 { *m - 3 } else { 0 };
                    let mut r = string_of(&v, 0, keep);
                    push_char(&mut r, '.');
                    push_char(&mut r, '.');
                    push_char(&mut r, '.');
                    assert(v@.subrange(0, keep as int) == input@.take(keep as int));
                    assert(r@ == input@.take(keep as int) + ellipsis());
                    r
                } else {
                    owned(input)
                }
            },
            Filter::Align(a) => a.apply(input),
        }
    }
}

} // verus!

verus! {

/// A variable in an expression: its name and the filters applied in order.
#[derive(Debug)]
pub struct VarToken {
    pub name: String,
    pub filters: Vec<Filter>,
}

/// `VarToken` with its texts as character sequences.
pub struct VarTokenV {
    pub name: Seq<char>,
    pub filters: Seq<FilterV>,
}

impl View for VarToken {
    type V = VarTokenV;

    open spec fn view(&self) -> VarTokenV {
        VarTokenV { name: self.name@, filters: self.filters@.map_values(|f: Filter| f@) }
    }
}

/// One piece of an expression: literal text or a variable.
#[derive(Debug)]
pub enum Token {
    String(String),
    Var(VarToken),
}

/// `Token` with its texts as character sequences.
pub enum TokenV {
    Text(Seq<char>),
    Var(VarTokenV),
}

impl View for Token {
    type V = TokenV;

    open spec fn view(&self) -> TokenV {
        match self {
            Token::String(s) => TokenV::Text(s@),
            Token::Var(v) => TokenV::Var(v@),
        }
    }
}

/// The views of a list of tokens.
pub open spec fn tokens_view(ts: Seq<Token>) -> Seq<TokenV> {
    ts.map_values(|t: Token| t@)
}

/// How the filters after the first `|` are read: split at each `|`, each
/// piece read as a filter; the first piece that fails decides the error.
pub open spec fn spec_filter_chain(s: Seq<char>) -> Result<Seq<FilterV>, ParseErrorV>
    decreases s.len(),
{
    match find_char(s, '|') {
        None => match spec_filter_parse(s) {
            Ok(f) => Ok(seq![f]),
            Err(x) => Err(x),
        },
        Some(i) => {
            proof {
                lemma_find_char(s, '|');
            }
            match spec_filter_parse(s.take(i)) {
                Err(x) => Err(x),
                Ok(f) => match spec_filter_chain(s.skip(i + 1)) {
                    Ok(fs) => Ok(seq![f] + fs),
                    Err(x) => Err(x),
                },
            }
        },
    }
}

/// How the text between `${` and `}` is read: the name up to the first `|`,
/// trimmed, then the filters.
pub open spec fn spec_var_parse(e: Seq<char>) -> Result<VarTokenV, ParseErrorV> {
    match find_char(e, '|') {
        None => Ok(VarTokenV { name: trim_spec(e), filters: seq![] }),
        Some(i) => match spec_filter_chain(e.skip(i + 1)) {
            Ok(fs) => Ok(VarTokenV { name: trim_spec(e.take(i)), filters: fs }),
            Err(x) => Err(x),
        },
    }
}

/// The tokens so far, with the pending literal text added when there is some.
pub open spec fn flush(acc: Seq<TokenV>, buf: Seq<char>) -> Seq<TokenV> {
    if buf.len() == 0 {
        acc
    } else {
        acc.push(TokenV::Text(buf))
    }
}

/// Reading an expression from left to right: `buf` holds the literal text
/// not yet emitted, `acc` the tokens emitted. `${...}` is a variable (up to
/// the first `}`), `$` followed by any other character is kept literally,
/// and a `$` at the end is an error.
pub open spec fn spec_scan(s: Seq<char>, buf: Seq<char>, acc: Seq<TokenV>) -> Result<Seq<TokenV>, ParseErrorV>
    decreases s.len(),
{
    if s.len() == 0 {
        Ok(flush(acc, buf))
    } else if s[0] != '$' {
        spec_scan(s.drop_first(), buf.push(s[0]), acc)
    } else if s.len() == 1 {
        Err(ParseErrorV::TrailingDollar)
    } else if s[1] != '{' {
        spec_scan(s.skip(2), buf.push('$').push(s[1]), acc)
    } else {
        match find_char(s.skip(2), '}') {
            None => Err(ParseErrorV::UnclosedPlaceholder),
            Some(j) => {
                proof {
                    lemma_find_char(s.skip(2), '}');
                }
                match spec_var_parse(s.skip(2).take(j)) {
                    Err(x) => Err(x),
                    Ok(v) => spec_scan(s.skip(2).skip(j + 1), seq![], flush(acc, buf).push(TokenV::Var(v))),
                }
            },
        }
    }
}

/// The tokens of an expression, or why it is refused.
pub open spec fn spec_parse_expr(s: Seq<char>) -> Result<Seq<TokenV>, ParseErrorV> {
    spec_scan(s, seq![], seq![])
}

/// The value a variable has among `vars`: empty when it is not set.
pub open spec fn spec_lookup(vars: Map<Seq<char>, Seq<char>>, name: Seq<char>) -> Seq<char> {
    if vars.contains_key(name) {
        vars[name]
    } else {
        seq![]
    }
}

/// The filters applied one after the other.
pub open spec fn spec_apply_filters(fs: Seq<FilterV>, v: Seq<char>) -> Seq<char>
    decreases fs.len(),
{
    if fs.len() == 0 {
        v
    } else {
        spec_apply_filters(fs.drop_first(), spec_filter_apply(fs[0], v))
    }
}

/// What a variable token stands for among `vars`.
pub open spec fn spec_var_resolve(t: VarTokenV, vars: Map<Seq<char>, Seq<char>>) -> Seq<char> {
    spec_apply_filters(t.filters, spec_lookup(vars, t.name))
}

/// What a token stands for among `vars`.
pub open spec fn spec_token_resolve(t: TokenV, vars: Map<Seq<char>, Seq<char>>) -> Seq<char> {
    match t {
        TokenV::Text(s) => s,
        TokenV::Var(v) => spec_var_resolve(v, vars),
    }
}

/// What a list of tokens stands for among `vars`: the pieces one after the other.
pub open spec fn spec_resolve(ts: Seq<TokenV>, vars: Map<Seq<char>, Seq<char>>) -> Seq<char>
    decreases ts.len(),
{
    if ts.len() == 0 {
        seq![]
    } else {
        spec_resolve(ts.drop_last(), vars) + spec_token_resolve(ts.last(), vars)
    }
}

/// The name under which the value being formatted is visible: `value`.
pub open spec fn value_name() -> Seq<char> {
    seq!['v', 'a', 'l', 'u', 'e']
}

/// A set of variables that expressions are resolved against.
pub trait PlaceholderContext {
    /// The variables, by name.
    spec fn ctx_vars(&self) -> Map<Seq<char>, Seq<char>>;

    /// The value of a variable.
    fn get(&self, key: &str) -> (r: Option<&String>)
        ensures
            match r {
                Some(v) => self.ctx_vars().contains_key(key@) && self.ctx_vars()[key@] == v@,
                None => !self.ctx_vars().contains_key(key@),
            },
    ;
}

impl PlaceholderContext for crate::vars::VarMap {
    open spec fn ctx_vars(&self) -> Map<Seq<char>, Seq<char>> {
        self@
    }

    fn get(&self, key: &str) -> (r: Option<&String>) {
        crate::vars::VarMap::get(self, key)
    }
}

/// Some variables, with `value` standing for one more value.
pub struct ContextWithValue<'a, C: PlaceholderContext> {
    pub vars: &'a C,
    pub value: &'a String,
}

impl<'a, C: PlaceholderContext> PlaceholderContext for ContextWithValue<'a, C> {
    open spec fn ctx_vars(&self) -> Map<Seq<char>, Seq<char>> {
        self.vars.ctx_vars().insert(value_name(), self.value@)
    }

    fn get(&self, key: &str) -> (r: Option<&String>) {
        if is_value_name(key) {
            Some(self.value)
        } else {
            self.vars.get(key)
        }
    }
}

/// Whether `key` is `value`.
fn is_value_name(key: &str) -> (r: bool)
    ensures
        r == (key@ == value_name()),
{
    let v = chars_of(key);
    assert(v@.subrange(0, v@.len() as int) == v@);
    range_equals(&v, 0, v.len(), &vec!['v', 'a', 'l', 'u', 'e'])
}

impl Clone for VarToken {
    fn clone(&self) -> (r: Self)
        ensures
            r@ == self@,
    {
        let mut filters: Vec<Filter> = Vec::new();
        let mut i: usize = 0;
        while i < self.filters.len()
            invariant
                i <= self.filters@.len(),
                filters@.len() == i,
                forall|k: int| 0 <= k < i ==> (#[trigger] filters@[k])@ == self.filters@[k]@,
            decreases self.filters@.len() - i,
        {
            let c = self.filters[i].clone();
            filters.push(c);
            i += 1;
        }
        assert(filters@.map_values(|f: Filter| f@) =~= self.filters@.map_values(|f: Filter| f@));
        VarToken { name: self.name.clone(), filters }
    }
}

impl Clone for Token {
    fn clone(&self) -> (r: Self)
        ensures
            r@ == self@,
    {
        match self {
            Token::String(s) => Token::String(s.clone()),
            Token::Var(v) => Token::Var(v.clone()),
        }
    }
}

impl VarToken {
    /// Reads the filters of `v[from..to]`, the text after the first `|`.
    fn parse_filters(v: &Vec<char>, from: usize, to: usize) -> (r: Result<Vec<Filter>, ParseError>)
        requires
            from <= to <= v@.len(),
        ensures
            match r {
                Ok(fs) => spec_filter_chain(v@.subrange(from as int, to as int)) == Ok::<Seq<FilterV>, ParseErrorV>(
                    fs@.map_values(|f: Filter| f@),
                ),
                Err(x) => spec_filter_chain(v@.subrange(from as int, to as int)) == Err::<Seq<FilterV>, ParseErrorV>(x@),
            },
    {
        let mut filters: Vec<Filter> = Vec::new();
        let mut i = from;
        loop
            invariant
                from <= i <= to <= v@.len(),
                spec_filter_chain(v@.subrange(from as int, to as int)) == (match spec_filter_chain(
                    v@.subrange(i as int, to as int),
                ) {
                    Ok(fs) => Ok(filters@.map_values(|f: Filter| f@) + fs),
                    Err(x) => Err(x),
                }),
            decreases to - i,
        {
            let ghost s = v@.subrange(i as int, to as int);
            match find_char_in(v, i, to, '|') {
                None => {
                    let f = Filter::parse_range(v, i, to)?;
                    let ghost before = filters@.map_values(|f: Filter| f@);
                    filters.push(f);
                    assert(filters@.map_values(|f: Filter| f@) =~= before + seq![f@]);
                    return Ok(filters);
                },
                Some(p) => {
                    proof {
                        lemma_find_char(s, '|');
                    }
                    assert(s.take(p - i) == v@.subrange(i as int, p as int));
                    assert(s.skip(p - i + 1) == v@.subrange(p + 1, to as int));
                    let f = Filter::parse_range(v, i, p)?;
                    let ghost before = filters@.map_values(|f: Filter| f@);
                    filters.push(f);
                    assert(filters@.map_values(|f: Filter| f@) =~= before.push(f@));
                    assert forall|fs: Seq<FilterV>| before + (seq![f@] + fs) == before.push(f@) + fs by {
                        assert(before + (seq![f@] + fs) =~= before.push(f@) + fs);
                    }
                    i = p + 1;
                },
            }
        }
    }

    /// Reads a variable from `v[from..to]`, the text between `${` and `}`.
    pub fn parse_range(v: &Vec<char>, from: usize, to: usize) -> (r: Result<VarToken, ParseError>)
        requires
            from <= to <= v@.len(),
        ensures
            match r {
                Ok(t) => spec_var_parse(v@.subrange(from as int, to as int)) == Ok::<VarTokenV, ParseErrorV>(t@),
                Err(x) => spec_var_parse(v@.subrange(from as int, to as int)) == Err::<VarTokenV, ParseErrorV>(x@),
            },
    {
        let ghost e = v@.subrange(from as int, to as int);
        match find_char_in(v, from, to, '|') {
            None => {
                let name = trim_range(v, from, to);
                let filters: Vec<Filter> = Vec::new();
                assert(filters@.map_values(|f: Filter| f@) =~= Seq::<FilterV>::empty());
                Ok(VarToken { name, filters })
            },
            Some(p) => {
                proof {
                    lemma_find_char(e, '|');
                }
                assert(e.take(p - from) == v@.subrange(from as int, p as int));
                assert(e.skip(p - from + 1) == v@.subrange(p + 1, to as int));
                let filters = Self::parse_filters(v, p + 1, to)?;
                let name = trim_range(v, from, p);
                Ok(VarToken { name, filters })
            },
        }
    }

    /// The value of the variable among `vars`, passed through the filters.
    pub fn resolve<C: PlaceholderContext>(&self, vars: &C) -> (r: Result<String, ParseError>)
        ensures
            r matches Ok(s) && s@ == spec_var_resolve(self@, vars.ctx_vars()),
    {
        let mut value = match vars.get(self.name.as_str()) {
            Some(s) => s.clone(),
            None => String::new(),
        };
        let ghost fs = self@.filters;
        assert(fs.skip(0) == fs);
        let mut i: usize = 0;
        while i < self.filters.len()
            invariant
                i <= self.filters@.len(),
                fs == self.filters@.map_values(|f: Filter| f@),
                spec_var_resolve(self@, vars.ctx_vars()) == spec_apply_filters(fs.skip(i as int), value@),
            decreases self.filters@.len() - i,
        {
            assert(fs.skip(i as int).drop_first() == fs.skip(i + 1));
            value = self.filters[i].apply(value.as_str());
            i += 1;
        }
        assert(fs.skip(i as int).len() == 0);
        Ok(value)
    }
}

/// Reads an expression into tokens.
pub fn parse_expr(expression: &str) -> (r: Result<Vec<Token>, ParseError>)
    ensures
        match r {
            Ok(ts) => spec_parse_expr(expression@) == Ok::<Seq<TokenV>, ParseErrorV>(tokens_view(ts@)),
            Err(x) => spec_parse_expr(expression@) == Err::<Seq<TokenV>, ParseErrorV>(x@),
        },
{
    let v = chars_of(expression);
    let n = v.len();
    let mut result: Vec<Token> = Vec::new();
    let mut buf: Vec<char> = Vec::new();
    let mut i: usize = 0;
    assert(v@.skip(0) == v@);
    assert(tokens_view(result@) =~= Seq::<TokenV>::empty());
    assert(buf@ =~= Seq::<char>::empty());
    while i < n
        invariant
            i <= n == v@.len(),
            v@ == expression@,
            spec_parse_expr(expression@) == spec_scan(v@.skip(i as int), buf@, tokens_view(result@)),
        decreases n - i,
    {
        let ghost s = v@.skip(i as int);
        let c = v[i];
        if c != '$' {
            buf.push(c);
            assert(s.drop_first() == v@.skip(i + 1));
            i += 1;
        } else if i + 1 == n {
            return Err(ParseError::TrailingDollar);
        } else if v[i + 1] != '{' {
            buf.push('$');
            buf.push(v[i + 1]);
            assert(s.skip(2) == v@.skip(i + 2));
            i += 2;
        } else {
            assert(s.skip(2) == v@.subrange(i + 2, n as int));
            match find_char_in(&v, i + 2, n, '}') {
                None => {
                    return Err(ParseError::UnclosedPlaceholder);
                },
                Some(j) => {
                    proof {
                        lemma_find_char(s.skip(2), '}');
                    }
                    assert(s.skip(2).take(j - i - 2) == v@.subrange(i + 2, j as int));
                    assert(s.skip(2).skip(j - i - 2 + 1) == v@.skip(j + 1));
                    let var_token = VarToken::parse_range(&v, i + 2, j)?;
                    let ghost before = tokens_view(result@);
                    if buf.len() > 0 {
                        let text = string_of(&buf, 0, buf.len());
                        assert(buf@.subrange(0, buf@.len() as int) == buf@);
                        result.push(Token::String(text));
                        assert(tokens_view(result@) =~= before.push(TokenV::Text(buf@)));
                    } else {
                        assert(tokens_view(result@) =~= before);
                    }
                    let ghost flushed = tokens_view(result@);
                    assert(flushed == flush(before, buf@));
                    let ghost vt = var_token@;
                    result.push(Token::Var(var_token));
                    assert(tokens_view(result@) =~= flushed.push(TokenV::Var(vt)));
                    buf = Vec::new();
                    i = j + 1;
                },
            }
        }
    }
    let ghost before = tokens_view(result@);
    assert(v@.skip(i as int).len() == 0);
    if buf.len() > 0 {
        let text = string_of(&buf, 0, buf.len());
        assert(buf@.subrange(0, buf@.len() as int) == buf@);
        result.push(Token::String(text));
        assert(tokens_view(result@) =~= before.push(TokenV::Text(buf@)));
    }
    Ok(result)
}

} // verus!

verus! {

/// An expression together with the value it had when last resolved.
#[derive(Debug)]
pub struct Placeholder {
    pub tokens: Vec<Token>,
    pub value: String,
}

impl Placeholder {
    /// The tokens of the expression.
    pub open spec fn tokens_view(&self) -> Seq<TokenV> {
        tokens_view(self.tokens@)
    }

    /// Reads an expression; the value starts empty. A refused expression is
    /// named in the error, with the reason.
    pub fn new(expr: &str) -> (r: Result<Self, ExpressionError>)
        ensures
            match r {
                Ok(p) => spec_parse_expr(expr@) == Ok::<Seq<TokenV>, ParseErrorV>(p.tokens_view())
                    && p.value@ == Seq::<char>::empty(),
                Err(x) => x.expression@ == expr@ && spec_parse_expr(expr@) == Err::<Seq<TokenV>, ParseErrorV>(x.cause@),
            },
    {
        match parse_expr(expr) {
            Ok(tokens) => Ok(Placeholder { tokens, value: String::new() }),
            Err(cause) => Err(ExpressionError { expression: owned(expr), cause }),
        }
    }

    /// Reads an expression that is known to be well formed.
    pub fn infallable(value: &str) -> (r: Self)
        requires
            spec_parse_expr(value@) is Ok,
        ensures
            spec_parse_expr(value@) == Ok::<Seq<TokenV>, ParseErrorV>(r.tokens_view()),
            r.value@ == Seq::<char>::empty(),
    {
        match Self::new(value) {
            Ok(p) => p,
            Err(_) => {
                proof {
                    assert(false);
                }
                Placeholder { tokens: Vec::new(), value: String::new() }
            },
        }
    }

    /// Resolves the expression again and keeps the result as the value;
    /// tells whether the value changed.
    pub fn update<C: PlaceholderContext>(&mut self, vars: &C) -> (r: Result<bool, ParseError>)
        ensures
            final(self).tokens_view() == old(self).tokens_view(),
            final(self).value@ == spec_resolve(old(self).tokens_view(), vars.ctx_vars()),
            r matches Ok(changed) && changed == (old(self).value@ != final(self).value@),
    {
        let new_value = resolve_tokens(&self.tokens, vars);
        let changed = !str_eq(self.value.as_str(), new_value.as_str());
        self.value = new_value;
        Ok(changed)
    }

    /// Whether the value is empty.
    pub fn value_is_empty(&self) -> (r: bool)
        ensures
            r == (self.value@.len() == 0),
    {
        chars_of(self.value.as_str()).len() == 0
    }
}

/// What the tokens stand for among `vars`.
fn resolve_tokens<C: PlaceholderContext>(tokens: &Vec<Token>, vars: &C) -> (r: String)
    ensures
        r@ == spec_resolve(tokens_view(tokens@), vars.ctx_vars()),
{
    let ghost ts = tokens_view(tokens@);
    let mut result = String::new();
    let mut i: usize = 0;
    assert(ts.take(0) =~= Seq::<TokenV>::empty());
    while i < tokens.len()
        invariant
            i <= tokens@.len(),
            ts == tokens_view(tokens@),
            result@ == spec_resolve(ts.take(i as int), vars.ctx_vars()),
        decreases tokens@.len() - i,
    {
        assert(ts.take(i + 1).drop_last() == ts.take(i as int));
        match &tokens[i] {
            Token::String(s) => {
                push_str(&mut result, s.as_str());
            },
            Token::Var(v) => {
                let piece = v.resolve(vars);
                match piece {
                    Ok(p) => {
                        push_str(&mut result, p.as_str());
                    },
                    Err(_) => {},
                }
            },
        }
        i += 1;
    }
    assert(ts.take(i as int) == ts);
    result
}

impl Default for Placeholder {
    fn default() -> (r: Self)
        ensures
            r.tokens_view() == Seq::<TokenV>::empty(),
            r.value@ == Seq::<char>::empty(),
    {
        let tokens: Vec<Token> = Vec::new();
        assert(tokens_view(tokens@) =~= Seq::<TokenV>::empty());
        Placeholder { tokens, value: String::new() }
    }
}

impl Clone for Placeholder {
    fn clone(&self) -> (r: Self)
        ensures
            r.tokens_view() == self.tokens_view(),
            r.value@ == self.value@,
    {
        let mut tokens: Vec<Token> = Vec::new();
        let mut i: usize = 0;
        while i < self.tokens.len()
            invariant
                i <= self.tokens@.len(),
                tokens@.len() == i,
                forall|k: int| 0 <= k < i ==> (#[trigger] tokens@[k])@ == self.tokens@[k]@,
            decreases self.tokens@.len() - i,
        {
            let c = self.tokens[i].clone();
            tokens.push(c);
            i += 1;
        }
        assert(tokens_view(tokens@) =~= tokens_view(self.tokens@));
        Placeholder { tokens, value: self.value.clone() }
    }
}

/// Resolving something against variables.
pub trait PlaceholderExt {
    type R;

    fn resolve<C: PlaceholderContext>(&self, vars: &C) -> Result<Self::R, ParseError>;
}

impl PlaceholderExt for Placeholder {
    type R = String;

    /// What the expression stands for among `vars`: literal text as it is,
    /// each variable's value (empty when not set) through its filters.
    fn resolve<C: PlaceholderContext>(&self, vars: &C) -> (r: Result<String, ParseError>)
        ensures
            r matches Ok(s) && s@ == spec_resolve(self.tokens_view(), vars.ctx_vars()),
    {
        Ok(resolve_tokens(&self.tokens, vars))
    }
}

} // verus!

verus! {

/// `p` holds the same expression and the same value as `q`.
pub open spec fn same_placeholder(p: Placeholder, q: Placeholder) -> bool {
    p.tokens_view() == q.tokens_view() && p.value@ == q.value@
}

/// `p` is the empty expression with an empty value.
pub open spec fn empty_placeholder(p: Placeholder) -> bool {
    p.tokens_view() == Seq::<TokenV>::empty() && p.value@ == Seq::<char>::empty()
}

/// `new` is `old` resolved against `vars`.
pub open spec fn resolved_from(new: Placeholder, old: Placeholder, vars: Map<Seq<char>, Seq<char>>) -> bool {
    new.tokens_view() == old.tokens_view() && new.value@ == spec_resolve(old.tokens_view(), vars)
}

/// The value of `new` differs from the one of `old`.
pub open spec fn value_changed(old: Placeholder, new: Placeholder) -> bool {
    old.value@ != new.value@
}

/// `p` is the expression in `o`, or the empty one when there is none.
pub open spec fn unwrapped_or_empty(o: Option<Placeholder>, p: Placeholder) -> bool {
    match o {
        Some(q) => same_placeholder(p, q),
        None => empty_placeholder(p),
    }
}

/// `p` is the expression in `o`, or `d` when there is none.
pub open spec fn unwrapped_or(o: Option<Placeholder>, d: Placeholder, p: Placeholder) -> bool {
    match o {
        Some(q) => same_placeholder(p, q),
        None => same_placeholder(p, d),
    }
}

/// The expression in `o`, or the empty one.
pub fn unwrap_or_empty(o: Option<Placeholder>) -> (r: Placeholder)
    ensures
        unwrapped_or_empty(o, r),
{
    match o {
        Some(p) => p,
        None => Placeholder::default(),
    }
}

/// The expression in `o`, or a copy of `d`.
pub fn unwrap_or_clone(o: Option<Placeholder>, d: &Placeholder) -> (r: Placeholder)
    ensures
        unwrapped_or(o, *d, r),
{
    match o {
        Some(p) => p,
        None => d.clone(),
    }
}

} // verus!

verus! {

/// Text without `$` is read as literal text.
proof fn lemma_scan_plain(s: Seq<char>, buf: Seq<char>, acc: Seq<TokenV>)
    requires
        forall|i: int| 0 <= i < s.len() ==> s[i] != '$',
    ensures
        spec_scan(s, buf, acc) == Ok::<Seq<TokenV>, ParseErrorV>(flush(acc, buf + s)),
    decreases s.len(),
{
    if s.len() == 0 {
        assert(buf + s =~= buf);
    } else {
        assert(s[0] != '$');
        lemma_scan_plain(s.drop_first(), buf.push(s[0]), acc);
        assert(buf.push(s[0]) + s.drop_first() =~= buf + s);
    }
}

/// An expression without `$` is one literal token holding the whole text
/// (no token when the text is empty).
pub proof fn lemma_parse_plain(s: Seq<char>)
    requires
        forall|i: int| 0 <= i < s.len() ==> s[i] != '$',
    ensures
        spec_parse_expr(s) == Ok::<Seq<TokenV>, ParseErrorV>(flush(seq![], s)),
{
    lemma_scan_plain(s, seq![], seq![]);
    assert(Seq::<char>::empty() + s =~= s);
}

/// Whatever the variables, literal text resolves to itself.
pub proof fn lemma_resolve_plain(s: Seq<char>, vars: Map<Seq<char>, Seq<char>>)
    ensures
        spec_resolve(flush(seq![], s), vars) == s,
{
    if s.len() > 0 {
        let ts = flush(seq![], s);
        assert(ts.drop_last() =~= Seq::<TokenV>::empty());
        assert(spec_resolve(ts.drop_last(), vars) == Seq::<char>::empty());
        assert(ts.last() == TokenV::Text(s));
        assert(Seq::<char>::empty() + s =~= s);
    }
}

/// An expression without `$` resolves to its own text, whatever the
/// variables.
pub proof fn lemma_plain_text_resolves_to_itself(s: Seq<char>, vars: Map<Seq<char>, Seq<char>>)
    requires
        forall|i: int| 0 <= i < s.len() ==> s[i] != '$',
    ensures
        spec_parse_expr(s) matches Ok(ts) && spec_resolve(ts, vars) == s,
{
    lemma_parse_plain(s);
    lemma_resolve_plain(s, vars);
}

proof fn lemma_find_char_absent(s: Seq<char>, c: char)
    requires
        forall|i: int| 0 <= i < s.len() ==> s[i] != c,
    ensures
        find_char(s, c) is None,
    decreases s.len(),
{
    if s.len() > 0 {
        lemma_find_char_absent(s.drop_first(), c);
    }
}

proof fn lemma_find_char_at_end(s: Seq<char>, c: char)
    requires
        forall|i: int| 0 <= i < s.len() ==> s[i] != c,
    ensures
        find_char(s.push(c), c) == Some(s.len() as int),
    decreases s.len(),
{
    if s.len() > 0 {
        lemma_find_char_at_end(s.drop_first(), c);
        assert(s.push(c).drop_first() =~= s.drop_first().push(c));
    }
}

/// `${name}` is one variable token without filters when the name holds
/// neither `}` nor `|` and has no surrounding whitespace.
pub proof fn lemma_parse_single_var(name: Seq<char>)
    requires
        forall|i: int| 0 <= i < name.len() ==> name[i] != '}' && name[i] != '|',
        trim_spec(name) == name,
    ensures
        spec_parse_expr(seq!['$', '{'] + name + seq!['}']) == Ok::<Seq<TokenV>, ParseErrorV>(
            seq![TokenV::Var(VarTokenV { name, filters: seq![] })],
        ),
{
    let s = seq!['$', '{'] + name + seq!['}'];
    assert(s.skip(2) =~= name.push('}'));
    lemma_find_char_at_end(name, '}');
    assert(s.skip(2).take(name.len() as int) =~= name);
    lemma_find_char_absent(name, '|');
    assert(s.skip(2).skip(name.len() as int + 1) =~= Seq::<char>::empty());
    let v = VarTokenV { name, filters: seq![] };
    assert(s[0] == '$');
    assert(s[1] == '{');
    assert(s.len() > 1);
    assert(find_char(name, '|') is None);
    assert(spec_var_parse(name) == Ok::<VarTokenV, ParseErrorV>(v));
    assert(flush(seq![], seq![]).push(TokenV::Var(v)) =~= seq![TokenV::Var(v)]);
    assert(spec_scan(Seq::<char>::empty(), seq![], seq![TokenV::Var(v)]) == Ok::<Seq<TokenV>, ParseErrorV>(seq![TokenV::Var(v)]));
}

/// An expression known to hold no `$`: one literal token with the text.
pub fn plain(text: &str) -> (r: Placeholder)
    requires
        forall|i: int| 0 <= i < text@.len() ==> text@[i] != '$',
    ensures
        r.tokens_view() == flush(seq![], text@),
        r.value@ == Seq::<char>::empty(),
{
    proof {
        lemma_parse_plain(text@);
    }
    Placeholder::infallable(text)
}

/// The expression `${value}`.
pub fn value_placeholder() -> (r: Placeholder)
    ensures
        r.tokens_view() == seq![TokenV::Var(VarTokenV { name: value_name(), filters: seq![] })],
        r.value@ == Seq::<char>::empty(),
{
    let text = "${value}";
    proof {
        reveal_strlit("${value}");
        assert(text@ =~= seq!['$', '{'] + value_name() + seq!['}']);
        let n = value_name();
        assert(trim_start_spec(n) == n);
        assert(crate::text::trim_end_spec(n) == n);
        lemma_parse_single_var(value_name());
    }
    Placeholder::infallable(text)
}

} // verus!

verus! {

/// The tokens of `${value}`.
pub open spec fn value_placeholder_tokens() -> Seq<TokenV> {
    seq![TokenV::Var(VarTokenV { name: value_name(), filters: seq![] })]
}

} // verus!

verus! {

/// Aligning gives the width asked for, or the input itself when it is wider.
pub proof fn lemma_align_width(a: Align, input: Seq<char>)
    ensures
        spec_align_apply(a, input).len() == if a.width >= input.len() { a.width as int } else { input.len() as int },
        a.width <= input.len() ==> spec_align_apply(a, input) == input,
{
    let r = spec_align_apply(a, input);
    if a.width <= input.len() {
        let fill = match a.space {
            Some(c) => c,
            None => ' ',
        };
        assert(repeat(fill, 0) =~= Seq::<char>::empty());
        assert(r =~= input);
    }
}

/// `def` only fills in a blank value: a value with a character that is not
/// whitespace comes out of `def:d` unchanged, and an all-whitespace (or
/// empty) value becomes `d`; as the only filter of a variable it does the same.
pub proof fn lemma_default_fills_only_blank(d: Seq<char>, v: Seq<char>)
    ensures
        (exists|i: int| 0 <= i < v.len() && !is_ws(#[trigger] v[i])) ==> spec_filter_apply(FilterV::DefaultValue(d), v) == v,
        (forall|i: int| 0 <= i < v.len() ==> is_ws(#[trigger] v[i])) ==> spec_filter_apply(FilterV::DefaultValue(d), v) == d,
        spec_apply_filters(seq![FilterV::DefaultValue(d)], v) == spec_filter_apply(FilterV::DefaultValue(d), v),
{
    let fs = seq![FilterV::DefaultValue(d)];
    let out = spec_filter_apply(FilterV::DefaultValue(d), v);
    assert(fs.drop_first() =~= Seq::<FilterV>::empty());
    assert(fs[0] == FilterV::DefaultValue(d));
    assert(spec_apply_filters(Seq::<FilterV>::empty(), out) == out);
    assert(spec_apply_filters(fs, v) == spec_apply_filters(fs.drop_first(), out));
}

/// A value longer than `max` (at least three) is cut to exactly `max`
/// characters, ending with `...`; a shorter one is left as it is.
pub proof fn lemma_max_bounded(m: usize, input: Seq<char>)
    ensures
        input.len() <= m ==> spec_filter_apply(FilterV::Max(m), input) == input,
        input.len() > m && m >= 3 ==> spec_filter_apply(FilterV::Max(m), input).len() == m
            && spec_filter_apply(FilterV::Max(m), input).skip(m - 3) == ellipsis(),
{
    if input.len() > m && m >= 3 {
        let r = spec_filter_apply(FilterV::Max(m), input);
        assert(r.skip(m - 3) =~= ellipsis());
    }
}

/// Resolving an expression again among the same variables leaves its value
/// as it is: a second update with unchanged variables reports no change.
pub proof fn lemma_update_settles(p0: Placeholder, p1: Placeholder, p2: Placeholder, vars: Map<Seq<char>, Seq<char>>)
    requires
        resolved_from(p1, p0, vars),
        resolved_from(p2, p1, vars),
    ensures
        !value_changed(p1, p2),
        p2.value@ == p1.value@,
{
}

} // verus!
