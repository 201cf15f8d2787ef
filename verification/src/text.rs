//! Text utilities for transcript fragments and reply building.
//!
//! Utterance text is carried as `Vec<char>` so that every transformation
//! (whitespace stripping, trimming, joining) can be specified over
//! `Seq<char>` directly.

use vstd::prelude::*;
use vstd::std_specs::iter::IteratorSpec;

verus! {

broadcast use vstd::string::next_postcondition, vstd::string::axiom_spec_iter;

/// The characters Rust's `char::is_whitespace` recognises.
pub open spec fn is_space_spec(c: char) -> bool {
    c == ' ' || c == '\t' || c == '\n' || c == '\r' || c == '\u{000B}' || c == '\u{000C}' || c
        == '\u{0085}' || c == '\u{00A0}' || c == '\u{1680}' || ('\u{2000}' <= c && c <= '\u{200A}')
        || c == '\u{2028}' || c == '\u{2029}' || c == '\u{202F}' || c == '\u{205F}' || c
        == '\u{3000}'
}

/// The characters Rust's `char::is_ascii_whitespace` recognises.
pub open spec fn is_ascii_space_spec(c: char) -> bool {
    c == ' ' || c == '\t' || c == '\n' || c == '\r' || c == '\u{000C}'
}

pub fn is_space(c: char) -> (r: bool)
    ensures
        r == is_space_spec(c),
{
    c == ' ' || c == '\t' || c == '\n' || c == '\r' || c == '\u{000B}' || c == '\u{000C}' || c
        == '\u{0085}' || c == '\u{00A0}' || c == '\u{1680}' || ('\u{2000}' <= c && c <= '\u{200A}')
        || c == '\u{2028}' || c == '\u{2029}' || c == '\u{202F}' || c == '\u{205F}' || c
        == '\u{3000}'
}

pub fn is_ascii_space(c: char) -> (r: bool)
    ensures
        r == is_ascii_space_spec(c),
{
    c == ' ' || c == '\t' || c == '\n' || c == '\r' || c == '\u{000C}'
}

/// `s` with its leading whitespace removed.
pub open spec fn trim_start_spec(s: Seq<char>) -> Seq<char>
    decreases s.len(),
{
    if s.len() == 0 {
        s
    } else if is_space_spec(s[0]) {
        trim_start_spec(s.drop_first())
    } else {
        s
    }
}

/// `s` with its trailing whitespace removed.
pub open spec fn trim_end_spec(s: Seq<char>) -> Seq<char>
    decreases s.len(),
{
    if s.len() == 0 {
        s
    } else if is_space_spec(s.last()) {
        trim_end_spec(s.drop_last())
    } else {
        s
    }
}

/// `s` with leading and trailing whitespace removed.
pub open spec fn trim_spec(s: Seq<char>) -> Seq<char> {
    trim_end_spec(trim_start_spec(s))
}

proof fn lemma_trim_start_skip(s: Seq<char>, i: int)
    requires
        0 <= i <= s.len(),
        forall|m: int| 0 <= m < i ==> is_space_spec(s[m]),
        i == s.len() || !is_space_spec(s[i]),
    ensures
        trim_start_spec(s) =~= s.skip(i),
    decreases i,
{
    if i > 0 {
        assert(is_space_spec(s[0]));
        lemma_trim_start_skip(s.drop_first(), i - 1);
        assert(s.drop_first().skip(i - 1) =~= s.skip(i));
    }
}

proof fn lemma_trim_end_take(s: Seq<char>, j: int)
    requires
        0 <= j <= s.len(),
        forall|m: int| j <= m < s.len() ==> is_space_spec(s[m]),
        j == 0 || !is_space_spec(s[j - 1]),
    ensures
        trim_end_spec(s) =~= s.take(j),
    decreases s.len() - j,
{
    if j < s.len() {
        assert(is_space_spec(s.last()));
        lemma_trim_end_take(s.drop_last(), j);
        assert(s.drop_last().take(j) =~= s.take(j));
    } else {
        assert(s.take(j) =~= s);
    }
}

/// Remove leading and trailing whitespace.
#[verifier::loop_isolation(false)]
pub fn trim_chars(t: &Vec<char>) -> (r: Vec<char>)
    ensures
        r@ == trim_spec(t@),
{
    let n = t.len();
    let mut i: usize = 0;
    while i < n && is_space(t[i])
        invariant
            0 <= i <= n,
            forall|m: int| 0 <= m < i ==> is_space_spec(t@[m]),
        decreases n - i,
    {
        i += 1;
    }
    proof {
        lemma_trim_start_skip(t@, i as int);
    }
    let mut j: usize = n;
    while j > i && is_space(t[j - 1])
        invariant
            i <= j <= n,
            forall|m: int| j <= m < n ==> is_space_spec(t@[m]),
        decreases j,
    {
        j -= 1;
    }
    proof {
        if j == i {
            lemma_trim_end_take(t@.skip(i as int), 0);
        } else {
            lemma_trim_end_take(t@.skip(i as int), j - i);
        }
    }
    let mut r: Vec<char> = Vec::new();
    let mut k: usize = i;
    while k < j
        invariant
            i <= k <= j,
            r@ =~= t@.subrange(i as int, k as int),
        decreases j - k,
    {
        r.push(t[k]);
        k += 1;
    }
    proof {
        assert(t@.subrange(i as int, j as int) =~= t@.skip(i as int).take(j - i));
    }
    r
}

proof fn lemma_trim_start_no_lead(s: Seq<char>)
    ensures
        trim_start_spec(s).len() > 0 ==> !is_space_spec(trim_start_spec(s)[0]),
    decreases s.len(),
{
    if s.len() > 0 && is_space_spec(s[0]) {
        lemma_trim_start_no_lead(s.drop_first());
    }
}

proof fn lemma_trim_end_no_trail(s: Seq<char>)
    ensures
        trim_end_spec(s).len() > 0 ==> !is_space_spec(trim_end_spec(s).last()),
    decreases s.len(),
{
    if s.len() > 0 && is_space_spec(s.last()) {
        lemma_trim_end_no_trail(s.drop_last());
    }
}

proof fn lemma_trim_end_elements(s: Seq<char>)
    ensures
        trim_end_spec(s).len() <= s.len(),
        forall|i: int|
            0 <= i < trim_end_spec(s).len() ==> (#[trigger] trim_end_spec(s)[i]) == s[i],
    decreases s.len(),
{
    if s.len() > 0 && is_space_spec(s.last()) {
        lemma_trim_end_elements(s.drop_last());
        assert forall|i: int|
            0 <= i < trim_end_spec(s).len() implies (#[trigger] trim_end_spec(s)[i]) == s[i] by {
            assert(trim_end_spec(s)[i] == trim_end_spec(s.drop_last())[i]);
            assert(s.drop_last()[i] == s[i]);
        }
    }
}

/// Trimming is idempotent: already-trimmed text trims to itself.
pub proof fn lemma_trim_idempotent(s: Seq<char>)
    ensures
        trim_spec(trim_spec(s)) == trim_spec(s),
{
    let u = trim_start_spec(s);
    let t = trim_spec(s);
    lemma_trim_start_no_lead(s);
    lemma_trim_end_elements(u);
    assert(t.len() > 0 ==> t[0] == u[0]);
    assert(t.len() > 0 ==> !is_space_spec(t[0]));
    assert(trim_start_spec(t) == t);
    lemma_trim_end_no_trail(u);
    assert(t.len() > 0 ==> !is_space_spec(t.last()));
    assert(trim_end_spec(t) == t);
}

/// `s` with every ASCII whitespace character removed.
pub open spec fn stripped_spec(s: Seq<char>) -> Seq<char> {
    s.filter(|c: char| !is_ascii_space_spec(c))
}

/// Remove every ASCII whitespace character, the way transcript fragments
/// are normalised before they are buffered.
#[verifier::loop_isolation(false)]
pub fn strip_ascii_space(t: &Vec<char>) -> (r: Vec<char>)
    ensures
        r@ == stripped_spec(t@),
{
    let n = t.len();
    let mut r: Vec<char> = Vec::new();
    let mut i: usize = 0;
    while i < n
        invariant
            0 <= i <= n,
            r@ =~= t@.take(i as int).filter(|c: char| !is_ascii_space_spec(c)),
        decreases n - i,
    {
        let c = t[i];
        proof {
            assert(t@.take(i + 1).drop_last() =~= t@.take(i as int));
            reveal_with_fuel(Seq::filter, 2);
        }
        if !is_ascii_space(c) {
            r.push(c);
        }
        i += 1;
    }
    proof {
        assert(t@.take(n as int) =~= t@);
    }
    r
}

/// Append the characters of `src` to `dest`.
#[verifier::loop_isolation(false)]
pub fn append_chars(dest: &mut Vec<char>, src: &Vec<char>)
    ensures
        final(dest)@ == old(dest)@ + src@,
{
    let ghost base = dest@;
    let n = src.len();
    let mut i: usize = 0;
    while i < n
        invariant
            0 <= i <= n,
            dest@ =~= base + src@.take(i as int),
        decreases n - i,
    {
        dest.push(src[i]);
        i += 1;
    }
    proof {
        assert(base + src@.take(n as int) =~= base + src@);
    }
}

/// A fresh vector with the same characters.
pub fn clone_chars(src: &Vec<char>) -> (r: Vec<char>)
    ensures
        r@ == src@,
{
    let mut r: Vec<char> = Vec::new();
    append_chars(&mut r, src);
    proof {
        assert(Seq::<char>::empty() + src@ =~= src@);
    }
    r
}

/// Append the characters of `s` to `dest`.
pub fn append_str(dest: &mut Vec<char>, s: &str)
    ensures
        final(dest)@ == old(dest)@ + s@,
{
    let ghost base = dest@;
    let mut it = s.chars();
    loop
        invariant
            dest@ + it.remaining() == base + s@,
            it.decrease() is Some,
        ensures
            it.remaining().len() == 0,
        decreases it.decrease()->0,
    {
        let c_opt = it.next();
        match c_opt {
            Some(c) => {
                dest.push(c);
            },
            None => {
                break ;
            },
        }
    }
    proof {
        assert(dest@ =~= base + s@);
    }
}

/// The characters of `s`, as a vector.
pub fn str_to_chars(s: &str) -> (r: Vec<char>)
    ensures
        r@ == s@,
{
    let mut r: Vec<char> = Vec::new();
    append_str(&mut r, s);
    proof {
        assert(Seq::<char>::empty() + s@ =~= s@);
    }
    r
}

/// The concatenation of several texts.
pub open spec fn concat_spec(parts: Seq<Seq<char>>) -> Seq<char>
    decreases parts.len(),
{
    if parts.len() == 0 {
        Seq::empty()
    } else {
        concat_spec(parts.drop_last()) + parts.last()
    }
}

/// Collapse a recognition response's alternative texts into one buffered
/// fragment: the alternatives concatenated, with all ASCII whitespace
/// removed.
#[verifier::loop_isolation(false)]
pub fn collapse_transcript(parts: &Vec<Vec<char>>) -> (r: Vec<char>)
    ensures
        r@ == stripped_spec(concat_spec(parts@.map_values(|p: Vec<char>| p@))),
{
    let ghost model = parts@.map_values(|p: Vec<char>| p@);
    let mut joined: Vec<char> = Vec::new();
    let n = parts.len();
    let mut i: usize = 0;
    while i < n
        invariant
            0 <= i <= n,
            n == parts@.len(),
            joined@ =~= concat_spec(model.take(i as int)),
        decreases n - i,
    {
        proof {
            assert(model.take(i + 1).drop_last() =~= model.take(i as int));
            assert(model.take(i + 1).last() == model[i as int]);
        }
        append_chars(&mut joined, &parts[i]);
        i += 1;
    }
    proof {
        assert(model.take(n as int) =~= model);
    }
    strip_ascii_space(&joined)
}

/// `parts` joined with `sep` between consecutive elements.
pub open spec fn join_spec(parts: Seq<Seq<char>>, sep: Seq<char>) -> Seq<char>
    decreases parts.len(),
{
    if parts.len() == 0 {
        Seq::empty()
    } else if parts.len() == 1 {
        parts[0]
    } else {
        join_spec(parts.drop_last(), sep) + sep + parts.last()
    }
}

/// Join texts with a separator.
#[verifier::loop_isolation(false)]
pub fn join_texts(parts: &Vec<Vec<char>>, sep: &Vec<char>) -> (r: Vec<char>)
    ensures
        r@ == join_spec(parts@.map_values(|p: Vec<char>| p@), sep@),
{
    let ghost model = parts@.map_values(|p: Vec<char>| p@);
    let n = parts.len();
    let mut r: Vec<char> = Vec::new();
    let mut i: usize = 0;
    while i < n
        invariant
            0 <= i <= n,
            r@ =~= join_spec(model.take(i as int), sep@),
        decreases n - i,
    {
        proof {
            assert(model.take(i + 1).drop_last() =~= model.take(i as int));
            assert(model.take(i + 1).last() == model[i as int]);
        }
        if i > 0 {
            let mut sep_copy: Vec<char> = Vec::new();
            let m = sep.len();
            let mut k: usize = 0;
            while k < m
                invariant
                    0 <= k <= m,
                    sep_copy@ =~= sep@.take(k as int),
                decreases m - k,
            {
                sep_copy.push(sep[k]);
                k += 1;
            }
            proof {
                assert(sep@.take(m as int) =~= sep@);
            }
            r.append(&mut sep_copy);
        }
        let mut part_copy: Vec<char> = Vec::new();
        let m = parts[i].len();
        let mut k: usize = 0;
        while k < m
            invariant
                0 <= k <= m,
                part_copy@ =~= parts@[i as int]@.take(k as int),
            decreases m - k,
        {
            part_copy.push(parts[i][k]);
            k += 1;
        }
        proof {
            assert(parts@[i as int]@.take(m as int) =~= parts@[i as int]@);
        }
        r.append(&mut part_copy);
        i += 1;
    }
    proof {
        assert(model.take(n as int) =~= model);
    }
    r
}

/// The stretch marks that are doubled before synthesis, so that a single
/// elongation mark is not spoken too briefly.
pub open spec fn is_stretch_mark(c: char) -> bool {
    c == '\u{30FC}' || c == '\u{FF5E}'
}

/// `s` with every stretch mark doubled.
pub open spec fn doubled_spec(s: Seq<char>) -> Seq<char>
    decreases s.len(),
{
    if s.len() == 0 {
        Seq::empty()
    } else {
        doubled_spec(s.drop_last()) + (if is_stretch_mark(s.last()) {
            seq![s.last(), s.last()]
        } else {
            seq![s.last()]
        })
    }
}

/// Double every elongation mark in the reply before it is synthesised.
#[verifier::loop_isolation(false)]
pub fn stretch_long_vowels(t: &Vec<char>) -> (r: Vec<char>)
    ensures
        r@ == doubled_spec(t@),
{
    let n = t.len();
    let mut r: Vec<char> = Vec::new();
    let mut i: usize = 0;
    while i < n
        invariant
            0 <= i <= n,
            r@ =~= doubled_spec(t@.take(i as int)),
        decreases n - i,
    {
        let c = t[i];
        proof {
            assert(t@.take(i + 1).drop_last() =~= t@.take(i as int));
        }
        r.push(c);
        if c == '\u{30FC}' || c == '\u{FF5E}' {
            r.push(c);
        }
        i += 1;
    }
    proof {
        assert(t@.take(n as int) =~= t@);
    }
    r
}

} // verus!
