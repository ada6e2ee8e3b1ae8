//! Character-level text utilities shared by the decoder and the argument
//! parsers: character classes, trimming, splitting, and string building.

use vstd::prelude::*;

use vstd::string::StrSliceExecFns;

verus! {

/// ASCII whitespace: space, tab, line feed, form feed, carriage return.
pub open spec fn spec_is_ws(c: char) -> bool {
    c == ' ' || c == '\t' || c == '\n' || c == '\x0C' || c == '\r'
}

pub fn is_ws(c: char) -> (r: bool)
    ensures
        r == spec_is_ws(c),
{
    c == ' ' || c == '\t' || c == '\n' || c == '\x0C' || c == '\r'
}

/// An ASCII letter.
pub open spec fn spec_is_alpha(c: char) -> bool {
    ('a' as u32) <= (c as u32) <= ('z' as u32) || ('A' as u32) <= (c as u32) <= ('Z' as u32)
}

pub fn is_alpha(c: char) -> (r: bool)
    ensures
        r == spec_is_alpha(c),
{
    let u = c as u32;
    (('a' as u32) <= u && u <= ('z' as u32)) || (('A' as u32) <= u && u <= ('Z' as u32))
}

/// Any ASCII character.
pub open spec fn spec_is_ascii(c: char) -> bool {
    (c as u32) < 128
}

pub fn is_ascii_char(c: char) -> (r: bool)
    ensures
        r == spec_is_ascii(c),
{
    (c as u32) < 128
}

/// An ASCII decimal digit.
pub open spec fn spec_is_digit(c: char) -> bool {
    ('0' as u32) <= (c as u32) <= ('9' as u32)
}

pub fn is_digit(c: char) -> (r: bool)
    ensures
        r == spec_is_digit(c),
{
    let u = c as u32;
    ('0' as u32) <= u && u <= ('9' as u32)
}

/// Relies on `String::push`: appends exactly the given character to the end
/// of the string.
#[verifier::external_body]
pub fn push_char(s: &mut String, c: char)
    ensures
        final(s)@ == old(s)@.push(c),
{
    s.push(c);
}

/// Builds a `String` holding exactly the given characters.
pub fn chars_to_string(v: &Vec<char>) -> (s: String)
    ensures
        s@ == v@,
{
    let mut s = String::new();
    let mut i: usize = 0;
    while i < v.len()
        invariant
            i <= v.len(),
            s@ == v@.subrange(0, i as int),
        decreases v.len() - i,
    {
        push_char(&mut s, v[i]);
        proof {
            assert(v@.subrange(0, i + 1) =~= v@.subrange(0, i as int).push(v@[i as int]));
        }
        i = i + 1;
    }
    proof {
        assert(v@.subrange(0, v@.len() as int) =~= v@);
    }
    s
}

/// The characters of a string slice.
pub fn str_to_chars(s: &str) -> (r: Vec<char>)
    ensures
        r@ == s@,
{
    let n = s.unicode_len();
    let mut r: Vec<char> = Vec::new();
    let mut i: usize = 0;
    while i < n
        invariant
            i <= n,
            n == s@.len(),
            r@ == s@.subrange(0, i as int),
        decreases n - i,
    {
        r.push(s.get_char(i));
        proof {
            assert(s@.subrange(0, i + 1) =~= s@.subrange(0, i as int).push(s@[i as int]));
        }
        i = i + 1;
    }
    proof {
        assert(s@.subrange(0, s@.len() as int) =~= s@);
    }
    r
}

/// The text with leading ASCII whitespace removed.
pub open spec fn spec_trim_start(s: Seq<char>) -> Seq<char>
    decreases s.len(),
{
    if s.len() > 0 && spec_is_ws(s[0]) {
        spec_trim_start(s.drop_first())
    } else {
        s
    }
}

/// The text with trailing ASCII whitespace removed.
pub open spec fn spec_trim_end(s: Seq<char>) -> Seq<char>
    decreases s.len(),
{
    if s.len() > 0 && spec_is_ws(s[s.len() - 1]) {
        spec_trim_end(s.drop_last())
    } else {
        s
    }
}

/// The text with leading and trailing ASCII whitespace removed.
pub open spec fn spec_trim(s: Seq<char>) -> Seq<char> {
    spec_trim_end(spec_trim_start(s))
}

/// Dropping any run of leading whitespace is exactly what `spec_trim_start`
/// does.
proof fn lemma_trim_start_at(s: Seq<char>, a: int)
    requires
        0 <= a <= s.len(),
        forall|j: int| 0 <= j < a ==> spec_is_ws(s[j]),
        a < s.len() ==> !spec_is_ws(s[a]),
    ensures
        spec_trim_start(s) == s.skip(a),
    decreases s.len(),
{
    if a == 0 {
        assert(s.skip(0) =~= s);
    } else {
        assert(spec_is_ws(s[0]));
        lemma_trim_start_at(s.drop_first(), a - 1);
        assert(s.drop_first().skip(a - 1) =~= s.skip(a));
    }
}

/// Dropping any run of trailing whitespace is exactly what `spec_trim_end`
/// does.
proof fn lemma_trim_end_at(s: Seq<char>, b: int)
    requires
        0 <= b <= s.len(),
        forall|j: int| b <= j < s.len() ==> spec_is_ws(s[j]),
        b > 0 ==> !spec_is_ws(s[b - 1]),
    ensures
        spec_trim_end(s) == s.take(b),
    decreases s.len(),
{
    if b == s.len() {
        assert(s.take(b) =~= s);
    } else {
        assert(spec_is_ws(s[s.len() - 1]));
        lemma_trim_end_at(s.drop_last(), b);
        assert(s.drop_last().take(b) =~= s.take(b));
    }
}

/// Removes leading and trailing ASCII whitespace.
pub fn trim_chars(v: &Vec<char>) -> (r: Vec<char>)
    ensures
        r@ == spec_trim(v@),
{
    let mut a: usize = 0;
    while a < v.len() && is_ws(v[a])
        invariant
            a <= v.len(),
            forall|j: int| 0 <= j < a ==> spec_is_ws(v@[j]),
        decreases v.len() - a,
    {
        a = a + 1;
    }
    proof {
        lemma_trim_start_at(v@, a as int);
    }
    let mut b: usize = v.len();
    while b > a && is_ws(v[b - 1])
        invariant
            a <= b <= v.len(),
            forall|j: int| b <= j < v.len() ==> spec_is_ws(v@[j]),
        decreases b,
    {
        b = b - 1;
    }
    let ghost start = v@.skip(a as int);
    proof {
        if b == a {
            // everything from `a` on was whitespace
            lemma_trim_end_at(start, 0);
        } else {
            lemma_trim_end_at(start, b - a);
        }
        assert(start.take(b - a) =~= v@.subrange(a as int, b as int));
    }
    let mut r: Vec<char> = Vec::new();
    let mut i: usize = a;
    while i < b
        invariant
            a <= i <= b <= v.len(),
            r@ == v@.subrange(a as int, i as int),
        decreases b - i,
    {
        r.push(v[i]);
        proof {
            assert(v@.subrange(a as int, i + 1) =~= v@.subrange(a as int, i as int).push(
                v@[i as int],
            ));
        }
        i = i + 1;
    }
    r
}

/// One splitting step: characters are gathered into the current piece, and
/// the delimiter closes a piece. Splitting the empty text yields one empty
/// piece, as Rust's `split` does.
pub open spec fn spec_split_loop(
    s: Seq<char>,
    d: char,
    cur: Seq<char>,
    acc: Seq<Seq<char>>,
) -> Seq<Seq<char>>
    decreases s.len(),
{
    if s.len() == 0 {
        acc.push(cur)
    } else if s[0] == d {
        spec_split_loop(s.drop_first(), d, Seq::empty(), acc.push(cur))
    } else {
        spec_split_loop(s.drop_first(), d, cur.push(s[0]), acc)
    }
}

/// The text split on a delimiter character, empty pieces kept.
pub open spec fn spec_split(s: Seq<char>, d: char) -> Seq<Seq<char>> {
    spec_split_loop(s, d, Seq::empty(), Seq::empty())
}

/// Splits on a delimiter character, keeping empty pieces.
pub fn split_chars(v: &Vec<char>, d: char) -> (r: Vec<Vec<char>>)
    ensures
        r@.map_values(|p: Vec<char>| p@) == spec_split(v@, d),
{
    let ghost full = v@;
    let mut acc: Vec<Vec<char>> = Vec::new();
    let mut cur: Vec<char> = Vec::new();
    let mut i: usize = 0;
    proof {
        assert(full.skip(0) =~= full);
        assert(acc@.map_values(|p: Vec<char>| p@) =~= Seq::<Seq<char>>::empty());
    }
    while i < v.len()
        invariant
            i <= v.len(),
            full == v@,
            spec_split(full, d) == spec_split_loop(
                full.skip(i as int),
                d,
                cur@,
                acc@.map_values(|p: Vec<char>| p@),
            ),
        decreases v.len() - i,
    {
        let ghost rest = full.skip(i as int);
        proof {
            assert(rest.len() > 0);
            assert(rest[0] == full[i as int]);
            assert(rest.drop_first() =~= full.skip(i + 1));
        }
        if v[i] == d {
            let ghost old_acc = acc@.map_values(|p: Vec<char>| p@);
            acc.push(cur);
            cur = Vec::new();
            proof {
                assert(acc@.map_values(|p: Vec<char>| p@) =~= old_acc.push(
                    acc@[acc@.len() - 1]@,
                ));
            }
        } else {
            cur.push(v[i]);
        }
        i = i + 1;
    }
    let ghost old_acc = acc@.map_values(|p: Vec<char>| p@);
    acc.push(cur);
    proof {
        assert(full.skip(v@.len() as int) =~= Seq::<char>::empty());
        assert(acc@.map_values(|p: Vec<char>| p@) =~= old_acc.push(acc@[acc@.len() - 1]@));
    }
    acc
}

/// The index of the first occurrence of a character, or `-1` when it does
/// not occur.
pub open spec fn spec_find(s: Seq<char>, c: char) -> int
    decreases s.len(),
{
    if s.len() == 0 {
        -1
    } else if s[0] == c {
        0
    } else {
        if spec_find(s.drop_first(), c) < 0 {
            -1
        } else {
            spec_find(s.drop_first(), c) + 1
        }
    }
}

/// What `spec_find` returns: the first index holding the character, or `-1`
/// when no index does.
pub proof fn lemma_find_props(s: Seq<char>, c: char)
    ensures
        spec_find(s, c) >= 0 ==> 0 <= spec_find(s, c) < s.len() && s[spec_find(s, c)] == c
            && forall|j: int| 0 <= j < spec_find(s, c) ==> s[j] != c,
        spec_find(s, c) < 0 ==> forall|j: int| 0 <= j < s.len() ==> s[j] != c,
    decreases s.len(),
{
    if s.len() == 0 {
    } else if s[0] == c {
    } else {
        lemma_find_props(s.drop_first(), c);
        assert forall|j: int| 0 <= j < s.len() && s[j] == c implies spec_find(s, c) >= 0 by {
            assert(j > 0);
            assert(s.drop_first()[j - 1] == c);
        }
        if spec_find(s, c) >= 0 {
            assert forall|j: int| 0 <= j < spec_find(s, c) implies s[j] != c by {
                if j > 0 {
                    assert(s[j] == s.drop_first()[j - 1]);
                }
            }
        }
    }
}

/// Finds the first occurrence of a character.
pub fn find_char(v: &Vec<char>, c: char) -> (r: Option<usize>)
    ensures
        match r {
            Some(i) => spec_find(v@, c) == i as int,
            None => spec_find(v@, c) < 0,
        },
{
    let mut i: usize = 0;
    while i < v.len()
        invariant
            i <= v.len(),
            forall|j: int| 0 <= j < i ==> v@[j] != c,
        decreases v.len() - i,
    {
        if v[i] == c {
            proof {
                lemma_find_props(v@, c);
            }
            return Some(i);
        }
        i = i + 1;
    }
    proof {
        lemma_find_props(v@, c);
    }
    None
}

} // verus!
