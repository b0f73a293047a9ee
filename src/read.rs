//! Turning lines of system files into the values the report shows.
use vstd::prelude::*;

verus! {

/// Whether `c` has the Unicode White_Space property.
pub uninterp spec fn unicode_space(c: char) -> bool;

/// Relies on `char::is_whitespace`: whether `c` has the Unicode White_Space
/// property, which space, tab, line feed and carriage return have.
#[verifier::external_body]
fn is_space(c: char) -> (r: bool)
    ensures
        r == unicode_space(c),
        c == ' ' || c == '\t' || c == '\n' || c == '\r' ==> r,
{
    c.is_whitespace()
}

/// `p` occurs in `s` from position `i` on.
pub open spec fn occurs_at(s: Seq<char>, p: Seq<char>, i: int) -> bool {
    &&& 0 <= i
    &&& i + p.len() <= s.len()
    &&& s.subrange(i, i + p.len()) == p
}

pub open spec fn contains_seq(s: Seq<char>, p: Seq<char>) -> bool {
    exists|i: int| occurs_at(s, p, i)
}

/// `s` with every occurrence of `p` taken out, from left to right.
pub open spec fn remove_all(s: Seq<char>, p: Seq<char>) -> Seq<char>
    decreases s.len(),
{
    if p.len() == 0 || s.len() == 0 {
        s
    } else if occurs_at(s, p, 0) {
        remove_all(s.skip(p.len() as int), p)
    } else {
        seq![s[0]] + remove_all(s.drop_first(), p)
    }
}

/// `s` without its leading white space.
pub open spec fn trim_start(s: Seq<char>) -> Seq<char>
    decreases s.len(),
{
    if s.len() > 0 && unicode_space(s[0]) {
        trim_start(s.drop_first())
    } else {
        s
    }
}

/// `s` without its trailing white space.
pub open spec fn trim_end(s: Seq<char>) -> Seq<char>
    decreases s.len(),
{
    if s.len() > 0 && unicode_space(s.last()) {
        trim_end(s.drop_last())
    } else {
        s
    }
}

/// Whether `p` occurs in `s` from position `i` on.
pub(crate) fn matches_at(s: &Vec<char>, p: &Vec<char>, i: usize) -> (r: bool)
    ensures
        r == occurs_at(s@, p@, i as int),
{
    if p.len() > s.len() || i > s.len() - p.len() {
        return false;
    }
    let mut j: usize = 0;
    while j < p.len()
        invariant
            i + p@.len() <= s@.len(),
            s@.len() <= usize::MAX,
            j <= p@.len(),
            forall|k: int| 0 <= k < j ==> s@[i + k] == p@[k],
        decreases p@.len() - j,
    {
        if s[i + j] != p[j] {
            assert(s@.subrange(i as int, i + p@.len())[j as int] != p@[j as int]);
            return false;
        }
        j = j + 1;
    }
    assert(s@.subrange(i as int, i + p@.len()) =~= p@);
    true
}

/// Whether `p` occurs anywhere in `s`.
pub fn contains(s: &Vec<char>, p: &Vec<char>) -> (r: bool)
    ensures
        r == contains_seq(s@, p@),
{
    let mut i: usize = 0;
    while i < s.len()
        invariant
            i <= s@.len(),
            forall|k: int| 0 <= k < i ==> !occurs_at(s@, p@, k),
        decreases s@.len() - i,
    {
        if matches_at(s, p, i) {
            return true;
        }
        i = i + 1;
    }
    let b = matches_at(s, p, i);
    proof {
        if !b {
            assert forall|k: int| !occurs_at(s@, p@, k) by {
                if 0 <= k < i {
                    assert(!occurs_at(s@, p@, k));
                }
            }
        }
    }
    b
}

/// `s` with every occurrence of `p` taken out, from left to right.
pub fn remove_all_exec(s: &Vec<char>, p: &Vec<char>) -> (r: Vec<char>)
    ensures
        r@ == remove_all(s@, p@),
{
    let mut out: Vec<char> = Vec::new();
    let mut i: usize = 0;
    assert(s@.skip(0) =~= s@);
    while i < s.len()
        invariant
            i <= s@.len(),
            out@ + remove_all(s@.skip(i as int), p@) == remove_all(s@, p@),
        decreases s@.len() - i,
    {
        let ghost rest = s@.skip(i as int);
        if p.len() > 0 && matches_at(s, p, i) {
            assert(rest.subrange(0, p@.len() as int) =~= s@.subrange(i as int, i + p@.len()));
            assert(rest.skip(p@.len() as int) =~= s@.skip(i + p@.len()));
            i = i + p.len();
        } else {
            proof {
                if p@.len() > 0 && p@.len() <= rest.len() {
                    assert(rest.subrange(0, p@.len() as int) =~= s@.subrange(i as int, i + p@.len()));
                }
            }
            assert(rest.drop_first() =~= s@.skip(i + 1));
            out.push(s[i]);
            assert(out@ + remove_all(s@.skip(i + 1), p@) =~= out@.drop_last() + remove_all(rest, p@));
            i = i + 1;
        }
    }
    assert(s@.skip(i as int) =~= Seq::<char>::empty());
    assert(out@ + Seq::<char>::empty() =~= out@);
    out
}

/// The glyphs of `s` from position `a` up to `b`.
fn slice_chars(s: &Vec<char>, a: usize, b: usize) -> (r: Vec<char>)
    requires
        a <= b <= s@.len(),
    ensures
        r@ == s@.subrange(a as int, b as int),
{
    let mut r: Vec<char> = Vec::new();
    let mut i: usize = a;
    while i < b
        invariant
            a <= i <= b,
            b <= s@.len(),
            r@ == s@.subrange(a as int, i as int),
        decreases b - i,
    {
        r.push(s[i]);
        i = i + 1;
        assert(r@ =~= s@.subrange(a as int, i as int));
    }
    r
}

/// `s` without leading and trailing white space.
pub fn trim(s: &Vec<char>) -> (r: Vec<char>)
    ensures
        r@ == trim_end(trim_start(s@)),
{
    let mut a: usize = 0;
    assert(s@.skip(0) =~= s@);
    while a < s.len() && is_space(s[a])
        invariant
            a <= s@.len(),
            trim_start(s@.skip(a as int)) == trim_start(s@),
        decreases s@.len() - a,
    {
        assert(s@.skip(a as int).drop_first() =~= s@.skip(a + 1));
        a = a + 1;
    }
    assert(trim_start(s@) == s@.skip(a as int));
    assert(s@.skip(a as int) =~= s@.subrange(a as int, s@.len() as int));
    let mut b: usize = s.len();
    while b > a && is_space(s[b - 1])
        invariant
            a <= b <= s@.len(),
            trim_end(s@.subrange(a as int, b as int)) == trim_end(trim_start(s@)),
        decreases b,
    {
        assert(s@.subrange(a as int, b as int).drop_last() =~= s@.subrange(a as int, b - 1));
        b = b - 1;
    }
    slice_chars(s, a, b)
}

pub open spec fn name_key() -> Seq<char> {
    seq!['N', 'A', 'M', 'E', '=']
}

pub open spec fn quoted_name_key() -> Seq<char> {
    seq!['N', 'A', 'M', 'E', '=', '"']
}

/// The distribution's name from the `NAME=` line of an os-release file:
/// `NAME="..."` loses the key, the opening quote and the last glyph; a line
/// without quotes only loses every `NAME=`.
pub open spec fn operating_system_spec(line: Seq<char>) -> Seq<char> {
    if !contains_seq(line, quoted_name_key()) {
        remove_all(line, name_key())
    } else {
        remove_all(line.drop_last(), quoted_name_key())
    }
}

/// The distribution's name from the first line of an os-release file.
pub fn operating_system(line: &Vec<char>) -> (r: Vec<char>)
    ensures
        r@ == operating_system_spec(line@),
{
    let key = vec!['N', 'A', 'M', 'E', '='];
    let quoted = vec!['N', 'A', 'M', 'E', '=', '"'];
    assert(key@ =~= name_key());
    assert(quoted@ =~= quoted_name_key());
    if !contains(line, &quoted) {
        return remove_all_exec(line, &key);
    }
    let trimmed = slice_chars(line, 0, line.len() - 1);
    assert(trimmed@ =~= line@.drop_last());
    remove_all_exec(&trimmed, &quoted)
}

pub open spec fn model_name_key() -> Seq<char> {
    seq!['m', 'o', 'd', 'e', 'l', ' ', 'n', 'a', 'm', 'e']
}

/// The processor's model from the `model name` line of a cpuinfo file: the
/// line without `model name` and colons, trimmed of white space.
pub open spec fn cpu_model_name_spec(line: Seq<char>) -> Seq<char> {
    trim_end(trim_start(remove_all(remove_all(line, model_name_key()), seq![':'])))
}

/// The processor's model from the `model name` line of a cpuinfo file.
pub fn cpu_model_name(line: &Vec<char>) -> (r: Vec<char>)
    ensures
        r@ == cpu_model_name_spec(line@),
{
    let key = vec!['m', 'o', 'd', 'e', 'l', ' ', 'n', 'a', 'm', 'e'];
    let colon = vec![':'];
    assert(key@ =~= model_name_key());
    assert(colon@ =~= seq![':']);
    let a = remove_all_exec(line, &key);
    let b = remove_all_exec(&a, &colon);
    trim(&b)
}

} // verus!
