//! Character-level helpers shared by the codecs, each with an exact model
//! over `Seq<char>`.
use vstd::prelude::*;

verus! {

/// Relies on `String::push`: the character is appended at the end.
pub assume_specification[ String::push ](s: &mut String, ch: char)
    ensures
        final(s)@ == old(s)@.push(ch),
;

/// The characters of `s`, in order.
pub fn chars_of(s: &str) -> (r: Vec<char>)
    ensures
        r@ == s@,
{
    broadcast use vstd::string::group_string_axioms;
    let mut v: Vec<char> = Vec::new();
    for c in it: s.chars()
        invariant
            v@ =~= it.seq().take(it.index() as int),
    {
        v.push(c);
    }
    v
}

/// `s` with every non-overlapping occurrence of `from`, scanned from the
/// left, replaced by `to`.
pub open spec fn replaced(s: Seq<char>, from: Seq<char>, to: Seq<char>) -> Seq<char>
    decreases s.len(),
{
    if from.len() == 0 || s.len() < from.len() {
        s
    } else if s.take(from.len() as int) == from {
        to + replaced(s.skip(from.len() as int), from, to)
    } else {
        seq![s[0]] + replaced(s.skip(1), from, to)
    }
}

/// Whether `pat` occurs in `s` at position `i`.
pub open spec fn occurs_at(s: Seq<char>, pat: Seq<char>, i: int) -> bool {
    0 <= i && i + pat.len() <= s.len() && s.subrange(i, i + pat.len()) == pat
}

/// Tests whether `pat` occurs in `s` at position `i`.
pub fn matches_at(s: &Vec<char>, pat: &Vec<char>, i: usize) -> (r: bool)
    ensures
        r == occurs_at(s@, pat@, i as int),
{
    if i > s.len() || pat.len() > s.len() - i {
        return false;
    }
    let mut k: usize = 0;
    while k < pat.len()
        invariant
            i + pat.len() <= s.len(),
            k <= pat.len(),
            forall|j: int| 0 <= j < k ==> s@[i + j] == pat@[j],
        decreases pat.len() - k,
    {
        if s[i + k] != pat[k] {
            assert(s@.subrange(i as int, i + pat.len())[k as int] != pat@[k as int]);
            return false;
        }
        k = k + 1;
    }
    assert(s@.subrange(i as int, i + pat.len()) =~= pat@);
    true
}

/// Appends the characters of `cs` to `out`.
pub fn push_chars(out: &mut String, cs: &Vec<char>)
    ensures
        final(out)@ == old(out)@ + cs@,
{
    let mut k: usize = 0;
    while k < cs.len()
        invariant
            k <= cs.len(),
            out@ == old(out)@ + cs@.take(k as int),
        decreases cs.len() - k,
    {
        out.push(cs[k]);
        k = k + 1;
        assert(out@ =~= old(out)@ + cs@.take(k as int));
    }
    assert(cs@.take(k as int) =~= cs@);
}

/// The string made of the characters of `cs`.
pub fn string_of(cs: &Vec<char>) -> (r: String)
    ensures
        r@ == cs@,
{
    let mut r = String::new();
    push_chars(&mut r, cs);
    assert(r@ =~= cs@);
    r
}

/// `s` with each occurrence of `from` replaced by `to`.
pub fn replace_all(s: &str, from: &str, to: &str) -> (r: String)
    ensures
        r@ == replaced(s@, from@, to@),
{
    let sc = chars_of(s);
    let fc = chars_of(from);
    if fc.len() == 0 {
        return string_of(&sc);
    }
    let mut out = String::new();
    let mut i: usize = 0;
    assert(sc@.skip(0) =~= sc@);
    assert(out@ + replaced(sc@, fc@, to@) =~= replaced(sc@, fc@, to@));
    while i < sc.len()
        invariant
            sc@ == s@,
            fc@ == from@,
            fc@.len() > 0,
            i <= sc.len(),
            out@ + replaced(sc@.skip(i as int), fc@, to@) == replaced(sc@, fc@, to@),
        decreases sc.len() - i,
    {
        let rest = Ghost(sc@.skip(i as int));
        if matches_at(&sc, &fc, i) {
            assert(rest@.take(fc@.len() as int) =~= sc@.subrange(i as int, i + fc@.len()));
            assert(rest@.skip(fc@.len() as int) =~= sc@.skip(i + fc@.len()));
            out.append(to);
            assert(out@ + replaced(sc@.skip(i + fc@.len()), fc@, to@) =~= replaced(sc@, fc@, to@));
            i = i + fc.len();
        } else {
            assert(rest@.skip(1) =~= sc@.skip(i + 1));
            proof {
                if rest@.len() >= fc@.len() {
                    assert(rest@.take(fc@.len() as int) =~= sc@.subrange(i as int, i + fc@.len()));
                } else {
                    // no further match: the rest is copied as it stands
                    lemma_replaced_short(rest@, fc@, to@);
                    lemma_replaced_short(rest@.skip(1), fc@, to@);
                }
            }
            out.push(sc[i]);
            assert(out@ + replaced(sc@.skip(i + 1), fc@, to@) =~= replaced(sc@, fc@, to@));
            i = i + 1;
        }
    }
    assert(sc@.skip(i as int) =~= Seq::<char>::empty());
    assert(out@ + Seq::<char>::empty() =~= out@);
    out
}

/// A text shorter than the pattern is left as it is.
pub proof fn lemma_replaced_short(s: Seq<char>, from: Seq<char>, to: Seq<char>)
    requires
        s.len() < from.len(),
    ensures
        replaced(s, from, to) == s,
{
}

/// The character classes that the statement grammars are written in.
#[derive(Clone, Copy)]
pub enum CharClass {
    /// `0`-`9`.
    Digit,
    /// `A`-`Z`.
    Upper,
    /// Latin letters, digits, underscore and letters of the Cyrillic block.
    Word,
    /// What an MT940 field value may hold: word characters, newline, space,
    /// comma, slash and hyphen.
    Field,
    /// What an MT940 block may hold: field characters and colon.
    Block,
    /// Word characters and space.
    Name,
}

pub open spec fn is_digit(c: char) -> bool {
    '0' <= c && c <= '9'
}

pub open spec fn is_upper(c: char) -> bool {
    'A' <= c && c <= 'Z'
}

pub open spec fn is_word(c: char) -> bool {
    ||| is_digit(c)
    ||| is_upper(c)
    ||| ('a' <= c && c <= 'z')
    ||| c == '_'
    ||| ('\u{400}' <= c && c <= '\u{4ff}')
}

pub open spec fn is_field(c: char) -> bool {
    is_word(c) || c == '\n' || c == ' ' || c == ',' || c == '/' || c == '-'
}

/// Whether `c` belongs to class `k`.
pub open spec fn in_class(k: CharClass, c: char) -> bool {
    match k {
        CharClass::Digit => is_digit(c),
        CharClass::Upper => is_upper(c),
        CharClass::Word => is_word(c),
        CharClass::Field => is_field(c),
        CharClass::Block => is_field(c) || c == ':',
        CharClass::Name => is_word(c) || c == ' ',
    }
}

/// Tests whether `c` belongs to class `k`.
pub fn has_class(k: CharClass, c: char) -> (r: bool)
    ensures
        r == in_class(k, c),
{
    let word = ('0' <= c && c <= '9') || ('A' <= c && c <= 'Z') || ('a' <= c && c <= 'z') || c
        == '_' || ('\u{400}' <= c && c <= '\u{4ff}');
    let field = word || c == '\n' || c == ' ' || c == ',' || c == '/' || c == '-';
    match k {
        CharClass::Digit => '0' <= c && c <= '9',
        CharClass::Upper => 'A' <= c && c <= 'Z',
        CharClass::Word => word,
        CharClass::Field => field,
        CharClass::Block => field || c == ':',
        CharClass::Name => word || c == ' ',
    }
}

/// The length of the longest run of class-`k` characters of `s` that starts
/// at `i`.
pub open spec fn run_len(s: Seq<char>, i: int, k: CharClass) -> nat
    decreases s.len() - i,
{
    if 0 <= i < s.len() && in_class(k, s[i]) {
        1 + run_len(s, i + 1, k)
    } else {
        0
    }
}

/// Every character of a run belongs to its class.
pub proof fn lemma_run_chars(s: Seq<char>, i: int, k: CharClass)
    requires
        0 <= i,
    ensures
        i + run_len(s, i, k) <= s.len() || run_len(s, i, k) == 0,
        forall|j: int| i <= j < i + run_len(s, i, k) ==> in_class(k, #[trigger] s[j]),
    decreases s.len() - i,
{
    if 0 <= i < s.len() && in_class(k, s[i]) {
        lemma_run_chars(s, i + 1, k);
    }
}

/// The length of the longest run of class-`k` characters from `i`.
pub fn run_at(s: &Vec<char>, i: usize, k: CharClass) -> (r: usize)
    requires
        i <= s.len(),
    ensures
        r == run_len(s@, i as int, k),
        i + r <= s.len(),
{
    let mut j: usize = i;
    while j < s.len() && has_class(k, s[j])
        invariant
            i <= j <= s.len(),
            run_len(s@, i as int, k) == (j - i) + run_len(s@, j as int, k),
        decreases s.len() - j,
    {
        j = j + 1;
    }
    j - i
}

/// The characters of `s` from `a` up to `b`, as a string.
pub fn string_range(s: &Vec<char>, a: usize, b: usize) -> (r: String)
    requires
        a <= b <= s.len(),
    ensures
        r@ == s@.subrange(a as int, b as int),
{
    let mut r = String::new();
    let mut k: usize = a;
    while k < b
        invariant
            a <= k <= b <= s.len(),
            r@ == s@.subrange(a as int, k as int),
        decreases b - k,
    {
        r.push(s[k]);
        k = k + 1;
        assert(r@ =~= s@.subrange(a as int, k as int));
    }
    r
}

/// Tests whether `s` holds exactly the text `lit`.
pub fn eq_text(s: &String, lit: &str) -> (r: bool)
    ensures
        r == (s@ == lit@),
{
    let a = chars_of(s.as_str());
    let b = chars_of(lit);
    if a.len() != b.len() {
        return false;
    }
    let m = matches_at(&a, &b, 0);
    proof {
        if m {
            assert(a@ =~= a@.subrange(0, b@.len() as int));
        } else {
            assert(a@.subrange(0, b@.len() as int) =~= a@);
        }
    }
    m
}

/// The index of the first `ch` of `s` at or after `i`, or the length of
/// `s` when there is none.
pub open spec fn index_from(s: Seq<char>, ch: char, i: int) -> int
    decreases s.len() - i,
{
    if i < 0 || i >= s.len() {
        s.len() as int
    } else if s[i] == ch {
        i
    } else {
        index_from(s, ch, i + 1)
    }
}

/// Finds the first `ch` of `s` at or after `i`.
pub fn find_char(s: &Vec<char>, ch: char, i: usize) -> (r: usize)
    requires
        i <= s.len(),
    ensures
        r == index_from(s@, ch, i as int),
        i <= r <= s.len(),
{
    let mut k: usize = i;
    while k < s.len() && s[k] != ch
        invariant
            i <= k <= s.len(),
            index_from(s@, ch, k as int) == index_from(s@, ch, i as int),
        decreases s.len() - k,
    {
        k = k + 1;
    }
    k
}

/// The number of bytes that UTF-8 takes for `c`.
pub open spec fn utf8_width(c: char) -> nat {
    if (c as u32) < 0x80 {
        1
    } else if (c as u32) < 0x800 {
        2
    } else if (c as u32) < 0x10000 {
        3
    } else {
        4
    }
}

/// The number of bytes that UTF-8 takes for `s`.
pub open spec fn utf8_size(s: Seq<char>) -> nat
    decreases s.len(),
{
    if s.len() == 0 {
        0
    } else {
        utf8_size(s.drop_last()) + utf8_width(s.last())
    }
}

/// Tests whether `s` takes exactly `n` bytes in UTF-8.
pub fn has_byte_len(s: &str, n: usize) -> (r: bool)
    requires
        n < 1000,
    ensures
        r == (utf8_size(s@) == n),
{
    let cs = chars_of(s);
    let cap: usize = n + 1;
    let mut acc: usize = 0;
    let mut k: usize = 0;
    while k < cs.len()
        invariant
            cap == n + 1,
            n < 1000,
            k <= cs@.len(),
            acc == if utf8_size(cs@.take(k as int)) < cap { utf8_size(cs@.take(k as int)) } else { cap as nat },
        decreases cs.len() - k,
    {
        let c = cs[k];
        let w: usize = if (c as u32) < 0x80 {
            1
        } else if (c as u32) < 0x800 {
            2
        } else if (c as u32) < 0x10000 {
            3
        } else {
            4
        };
        assert(cs@.take(k + 1).drop_last() =~= cs@.take(k as int));
        acc = if acc + w < cap { acc + w } else { cap };
        k = k + 1;
    }
    assert(cs@.take(k as int) =~= cs@);
    acc == n
}

/// The text of an optional string.
pub open spec fn opt_view(o: Option<String>) -> Option<Seq<char>> {
    match o {
        Some(x) => Some(x@),
        None => None,
    }
}

/// Replacing one character by another maps each character on its own.
pub proof fn lemma_replaced_char(s: Seq<char>, a: char, b: char)
    ensures
        replaced(s, seq![a], seq![b]) == s.map_values(|c: char| if c == a { b } else { c }),
    decreases s.len(),
{
    let f = |c: char| if c == a { b } else { c };
    if s.len() == 0 {
        assert(s.map_values(f) =~= s);
    } else {
        lemma_replaced_char(s.skip(1), a, b);
        assert(s.take(1) =~= seq![s[0]]);
        assert(s.map_values(f) =~= seq![f(s[0])] + s.skip(1).map_values(f));
        if s[0] == a {
            assert(s.take(1) == seq![a]);
        } else {
            assert(s.take(1) != seq![a]) by {
                assert(s.take(1)[0] != seq![a][0]);
            }
        }
    }
}

} // verus!
