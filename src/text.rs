//! Character-level helpers shared by the row parser: whitespace, trimming,
//! equality, and the `", "`-separated name lists.
use vstd::prelude::*;
use vstd::string::*;

verus! {

/// Whether `c` has the Unicode `White_Space` property (the set `char::is_whitespace` accepts).
pub open spec fn whitespace(c: char) -> bool {
    ('\t' <= c && c <= '\r') || c == ' ' || c == '\u{85}' || c == '\u{A0}' || c == '\u{1680}'
        || ('\u{2000}' <= c && c <= '\u{200A}') || c == '\u{2028}' || c == '\u{2029}'
        || c == '\u{202F}' || c == '\u{205F}' || c == '\u{3000}'
}

pub fn is_whitespace(c: char) -> (r: bool)
    ensures
        r == whitespace(c),
{
    ('\t' <= c && c <= '\r') || c == ' ' || c == '\u{85}' || c == '\u{A0}' || c == '\u{1680}'
        || ('\u{2000}' <= c && c <= '\u{200A}') || c == '\u{2028}' || c == '\u{2029}'
        || c == '\u{202F}' || c == '\u{205F}' || c == '\u{3000}'
}

/// Whether `c` belongs to the regular-expression class `\w`: Alphabetic,
/// Join_Control, Decimal_Number, Mark or Connector_Punctuation.
pub uninterp spec fn word_char(c: char) -> bool;

/// Relies on regex_syntax::is_word_character: membership in the Unicode `\w`
/// class (the crate's default features hold the tables it needs). None of the
/// class's properties and categories holds a White_Space character.
#[verifier::external_body]
pub(crate) fn is_word_char(c: char) -> (r: bool)
    ensures
        r == word_char(c),
        r ==> !whitespace(c),
{
    regex_syntax::is_word_character(c)
}

pub open spec fn trim_start(s: Seq<char>) -> Seq<char>
    decreases s.len(),
{
    if s.len() > 0 && whitespace(s[0]) {
        trim_start(s.drop_first())
    } else {
        s
    }
}

pub open spec fn trim_end(s: Seq<char>) -> Seq<char>
    decreases s.len(),
{
    if s.len() > 0 && whitespace(s.last()) {
        trim_end(s.drop_last())
    } else {
        s
    }
}

/// `s` without its leading and trailing whitespace.
pub open spec fn trim(s: Seq<char>) -> Seq<char> {
    trim_end(trim_start(s))
}

/// Removes the leading and trailing whitespace of `s`.
pub fn trimmed(s: &str) -> (r: String)
    ensures
        r@ == trim(s@),
{
    let n = s.unicode_len();
    let mut i: usize = 0;
    assert(s@.subrange(0, n as int) =~= s@);
    while i < n && is_whitespace(s.get_char(i))
        invariant
            n == s@.len(),
            i <= n,
            trim_start(s@) == trim_start(s@.subrange(i as int, n as int)),
        decreases n - i,
    {
        assert(s@.subrange(i as int, n as int).drop_first() =~= s@.subrange(i + 1, n as int));
        i = i + 1;
    }
    let mut j: usize = n;
    while j > i && is_whitespace(s.get_char(j - 1))
        invariant
            n == s@.len(),
            i <= j <= n,
            trim(s@) == trim_end(s@.subrange(i as int, j as int)),
        decreases j - i,
    {
        assert(s@.subrange(i as int, j as int).drop_last() =~= s@.subrange(i as int, j - 1));
        j = j - 1;
    }
    String::from_str(s.substring_char(i, j))
}

/// Compares two strings character by character.
pub fn same_text(a: &str, b: &str) -> (r: bool)
    ensures
        r == (a@ == b@),
{
    let n = a.unicode_len();
    if n != b.unicode_len() {
        return false;
    }
    let mut i: usize = 0;
    while i < n
        invariant
            n == a@.len(),
            n == b@.len(),
            i <= n,
            forall|k: int| 0 <= k < i ==> a@[k] == b@[k],
        decreases n - i,
    {
        if a.get_char(i) != b.get_char(i) {
            return false;
        }
        i = i + 1;
    }
    assert(a@ =~= b@);
    true
}

/// Whether the separator `", "` starts at index `i` of `s`.
pub open spec fn sep_at(s: Seq<char>, i: int) -> bool {
    0 <= i && i + 1 < s.len() && s[i] == ',' && s[i + 1] == ' '
}

/// The first index `j >= i` where the separator starts, or `s.len()` if none does.
pub open spec fn next_sep(s: Seq<char>, i: int) -> int
    decreases s.len() - i,
{
    if i >= s.len() {
        s.len() as int
    } else if sep_at(s, i) {
        i
    } else {
        next_sep(s, i + 1)
    }
}

/// The pieces of `s.subrange(i, s.len())` between the separators `", "`, left to right.
pub open spec fn pieces_from(s: Seq<char>, i: int) -> Seq<Seq<char>>
    decreases s.len() - i,
{
    if i < 0 || i > s.len() {
        seq![]
    } else {
        let j = next_sep(s, i);
        if j < i || j + 1 >= s.len() {
            seq![s.subrange(i, s.len() as int)]
        } else {
            seq![s.subrange(i, j)] + pieces_from(s, j + 2)
        }
    }
}

/// The pieces of `s` between the separators `", "`, as `str::split(", ")` gives them.
pub open spec fn pieces(s: Seq<char>) -> Seq<Seq<char>> {
    pieces_from(s, 0)
}

proof fn lemma_next_sep(s: Seq<char>, i: int)
    requires
        0 <= i <= s.len(),
    ensures
        i <= next_sep(s, i) <= s.len(),
        next_sep(s, i) < s.len() ==> sep_at(s, next_sep(s, i)),
        forall|k: int| i <= k < next_sep(s, i) ==> !sep_at(s, k),
    decreases s.len() - i,
{
    if i < s.len() && !sep_at(s, i) {
        lemma_next_sep(s, i + 1);
    }
}

/// The first name carried by a `"Firstname Lastname"` token: the leading run of
/// word characters, when it is not empty and is followed by nothing, or by a
/// whitespace character and then a rest free of line feeds.
pub open spec fn first_name(t: Seq<char>) -> Option<Seq<char>> {
    let k = word_prefix_len(t, 0);
    if k > 0 && (k == t.len() || (whitespace(t[k]) && forall|m: int|
        k < m < t.len() ==> t[m] != '\n')) {
        Some(t.subrange(0, k))
    } else {
        None
    }
}

/// The length of the run of word characters of `t` that starts at index `i`, plus `i`.
pub open spec fn word_prefix_len(t: Seq<char>, i: int) -> int
    decreases t.len() - i,
{
    if 0 <= i < t.len() && word_char(t[i]) {
        word_prefix_len(t, i + 1)
    } else {
        i
    }
}

/// Reduces a `"Firstname Lastname"` token to its first name, or `None` when the
/// token does not have that shape.
pub fn parse_firstname(assigned: &str) -> (r: Option<String>)
    ensures
        r matches Some(v) ==> first_name(assigned@) == Some(v@),
        r is None ==> first_name(assigned@) is None,
        r matches Some(v) ==> v@.len() > 0 && v@ == assigned@.subrange(0, v@.len() as int)
            && forall|i: int| 0 <= i < v@.len() ==> word_char(#[trigger] v@[i]) && !whitespace(v@[i]),
{
    let n = assigned.unicode_len();
    let mut k: usize = 0;
    while k < n && is_word_char(assigned.get_char(k))
        invariant
            n == assigned@.len(),
            k <= n,
            word_prefix_len(assigned@, 0) == word_prefix_len(assigned@, k as int),
            forall|i: int| 0 <= i < k ==> word_char(#[trigger] assigned@[i]) && !whitespace(assigned@[i]),
        decreases n - k,
    {
        k = k + 1;
    }
    assert(word_prefix_len(assigned@, k as int) == k as int);
    if k == 0 {
        return None;
    }
    if k < n {
        if !is_whitespace(assigned.get_char(k)) {
            return None;
        }
        let mut m: usize = k + 1;
        while m < n
            invariant
                n == assigned@.len(),
                k < m <= n,
                word_prefix_len(assigned@, 0) == k,
                whitespace(assigned@[k as int]),
                forall|p: int| k < p < m ==> assigned@[p] != '\n',
            decreases n - m,
        {
            if assigned.get_char(m) == '\n' {
                assert(assigned@[m as int] == '\n');
                return None;
            }
            m = m + 1;
        }
    }
    Some(String::from_str(assigned.substring_char(0, k)))
}

/// The first names of the tokens of `ts` that have the expected shape, in order.
pub open spec fn first_names(ts: Seq<Seq<char>>) -> Seq<Seq<char>>
    decreases ts.len(),
{
    if ts.len() == 0 {
        seq![]
    } else {
        let rest = first_names(ts.drop_last());
        match first_name(ts.last()) {
            Some(n) => rest.push(n),
            None => rest,
        }
    }
}

/// The views of the strings of `v`.
pub open spec fn views(v: Seq<String>) -> Seq<Seq<char>> {
    v.map_values(|x: String| x@)
}

/// Splits a `", "`-separated list of `"Firstname Lastname"` tokens and keeps the
/// first name of each well-formed token, in order; malformed tokens are left out.
pub fn parse_names(list: &str) -> (r: Vec<String>)
    ensures
        views(r@) == first_names(pieces(list@)),
{
    let n = list.unicode_len();
    let mut out: Vec<String> = Vec::new();
    let mut i: usize = 0;
    let ghost mut done: Seq<Seq<char>> = seq![];
    loop
        invariant
            n == list@.len(),
            i <= n,
            pieces(list@) == done + pieces_from(list@, i as int),
            views(out@) == first_names(done),
        decreases n - i,
    {
        let mut j: usize = i;
        while j < n && !(j + 1 < n && list.get_char(j) == ',' && list.get_char(j + 1) == ' ')
            invariant
                n == list@.len(),
                i <= j <= n,
                next_sep(list@, i as int) == next_sep(list@, j as int),
            decreases n - j,
        {
            j = j + 1;
        }
        proof {
            lemma_next_sep(list@, j as int);
        }
        let token = list.substring_char(i, j);
        let ghost piece = list@.subrange(i as int, j as int);
        let name = parse_firstname(token);
        proof {
            assert((done + seq![piece]).drop_last() =~= done);
        }
        match name {
            Some(v) => {
                out.push(v);
                proof {
                    assert(views(out@) =~= first_names(done + seq![piece]));
                }
            },
            None => {},
        }
        proof {
            assert(views(out@) =~= first_names(done + seq![piece]));
        }
        if j >= n {
            proof {
                assert(pieces_from(list@, i as int) == seq![piece]);
                done = done + seq![piece];
                assert(pieces(list@) =~= done);
            }
            return out;
        }
        proof {
            assert(pieces_from(list@, i as int) == seq![piece] + pieces_from(list@, j + 2));
            assert(pieces(list@) =~= (done + seq![piece]) + pieces_from(list@, j + 2));
            done = done + seq![piece];
        }
        i = j + 2;
    }
}

} // verus!
