//! Character-level helpers shared by the configuration parsers: decoding a
//! string into characters, splitting on separators, decimal numbers and case
//! folding.

use vstd::prelude::*;

verus! {

/// The lowercase form that `str::to_lowercase` gives a string.
pub uninterp spec fn lowercase_of(s: Seq<char>) -> Seq<char>;

/// The uppercase form that `str::to_uppercase` gives a string.
pub uninterp spec fn uppercase_of(s: Seq<char>) -> Seq<char>;

/// Whether `char::is_whitespace` holds of a character.
pub uninterp spec fn is_white_space(c: char) -> bool;

/// Calls `str::to_lowercase`. The result follows Unicode's case mapping of the
/// whole string; the contract only names it.
#[verifier::external_body]
pub(crate) fn to_lowercase(s: &str) -> (r: String)
    ensures
        r@ == lowercase_of(s@),
{
    s.to_lowercase()
}

/// Calls `str::to_uppercase`. The result follows Unicode's case mapping of the
/// whole string; the contract only names it.
#[verifier::external_body]
pub(crate) fn to_uppercase(s: &str) -> (r: String)
    ensures
        r@ == uppercase_of(s@),
{
    s.to_uppercase()
}

/// Calls `char::is_whitespace`, which tests Unicode's `White_Space` property;
/// the contract only names the answer.
#[verifier::external_body]
pub(crate) fn is_whitespace(c: char) -> (r: bool)
    ensures
        r == is_white_space(c),
{
    c.is_whitespace()
}

/// Calls `String::push`: the character is appended and nothing else changes.
#[verifier::external_body]
pub(crate) fn push_char(s: &mut String, c: char)
    ensures
        final(s)@ == old(s)@.push(c),
{
    s.push(c)
}

/// Decodes a string slice into its characters.
pub fn chars_of(s: &str) -> (v: Vec<char>)
    ensures
        v@ == s@,
{
    let mut v: Vec<char> = Vec::new();
    for c in it: s.chars()
        invariant
            v@ == it.seq().take(it.index()),
            it.seq() == s@,
    {
        v.push(c);
    }
    v
}

/// Builds the string that holds the characters `chars[from..to]`.
pub fn string_of(chars: &Vec<char>, from: usize, to: usize) -> (s: String)
    requires
        from <= to <= chars@.len(),
    ensures
        s@ == chars@.subrange(from as int, to as int),
{
    let mut s = String::new();
    let mut i: usize = from;
    while i < to
        invariant
            from <= i <= to <= chars@.len(),
            s@ == chars@.subrange(from as int, i as int),
        decreases to - i,
    {
        push_char(&mut s, chars[i]);
        i += 1;
        assert(chars@.subrange(from as int, i as int) == chars@.subrange(
            from as int,
            i as int - 1,
        ).push(chars@[i as int - 1]));
    }
    s
}

/// Whether two string slices hold the same characters.
pub fn same_text(a: &str, b: &str) -> (r: bool)
    ensures
        r == (a@ == b@),
{
    a.to_owned() == b.to_owned()
}

/// The characters on which a value is split into fields.
#[derive(Clone, Copy, Debug, PartialEq, Eq, Structural)]
pub enum Separators {
    /// A space or a tab.
    Blank,
    /// A space, a tab or a comma.
    BlankOrComma,
    /// Any whitespace character.
    Whitespace,
    /// A colon.
    Colon,
}

impl Separators {
    /// Whether `c` separates fields.
    pub open spec fn contains(self, c: char) -> bool {
        match self {
            Separators::Blank => c == ' ' || c == '\t',
            Separators::BlankOrComma => c == ' ' || c == '\t' || c == ',',
            Separators::Whitespace => is_white_space(c),
            Separators::Colon => c == ':',
        }
    }

    /// Whether `c` separates fields.
    pub fn has(self, c: char) -> (r: bool)
        ensures
            r == self.contains(c),
    {
        match self {
            Separators::Blank => c == ' ' || c == '\t',
            Separators::BlankOrComma => c == ' ' || c == '\t' || c == ',',
            Separators::Whitespace => is_whitespace(c),
            Separators::Colon => c == ':',
        }
    }
}

/// The length of the longest prefix of `s` that holds no separator.
pub open spec fn run_len(s: Seq<char>, sep: Separators) -> nat
    decreases s.len(),
{
    if s.len() == 0 || sep.contains(s[0]) {
        0
    } else {
        1 + run_len(s.drop_first(), sep)
    }
}

/// The fields of `s`: its maximal runs of characters that are no separators,
/// from left to right.
pub open spec fn fields(s: Seq<char>, sep: Separators) -> Seq<Seq<char>>
    decreases s.len(),
{
    if s.len() == 0 {
        Seq::empty()
    } else if sep.contains(s[0]) {
        fields(s.drop_first(), sep)
    } else {
        let n = run_len(s, sep) as int;
        if 0 < n <= s.len() {
            seq![s.take(n)] + fields(s.skip(n), sep)
        } else {
            Seq::empty()
        }
    }
}

/// A run never extends past the end of the text.
pub proof fn lemma_run_len_bound(s: Seq<char>, sep: Separators)
    ensures
        run_len(s, sep) <= s.len(),
        forall|i: int| 0 <= i < run_len(s, sep) ==> !sep.contains(#[trigger] s[i]),
        run_len(s, sep) < s.len() ==> sep.contains(s[run_len(s, sep) as int]),
    decreases s.len(),
{
    if s.len() == 0 || sep.contains(s[0]) {
    } else {
        let t = s.drop_first();
        lemma_run_len_bound(t, sep);
        assert forall|i: int| 0 <= i < run_len(s, sep) implies !sep.contains(#[trigger] s[i]) by {
            if i > 0 {
                assert(s[i] == t[i - 1]);
            }
        }
        if run_len(s, sep) < s.len() {
            assert(s[run_len(s, sep) as int] == t[run_len(t, sep) as int]);
        }
    }
}

/// Whether `t` can be a field: non-empty and free of separators.
pub open spec fn is_field(t: Seq<char>, sep: Separators) -> bool {
    t.len() > 0 && forall|i: int| 0 <= i < t.len() ==> !sep.contains(#[trigger] t[i])
}

/// Every field is non-empty and free of separators.
pub proof fn lemma_fields_clean(s: Seq<char>, sep: Separators)
    ensures
        forall|k: int| 0 <= k < fields(s, sep).len() ==> is_field(#[trigger] fields(s, sep)[k], sep),
    decreases s.len(),
{
    let all = fields(s, sep);
    if s.len() == 0 {
        assert(all.len() == 0);
    } else if sep.contains(s[0]) {
        lemma_fields_clean(s.drop_first(), sep);
        assert(all == fields(s.drop_first(), sep));
    } else {
        lemma_run_len_bound(s, sep);
        let n = run_len(s, sep) as int;
        lemma_fields_clean(s.skip(n), sep);
        let rest = fields(s.skip(n), sep);
        assert(all == seq![s.take(n)] + rest);
        assert forall|k: int| 0 <= k < all.len() implies is_field(#[trigger] all[k], sep) by {
            if k > 0 {
                assert(all[k] == rest[k - 1]);
            } else {
                assert(all[0] == s.take(n));
                assert forall|i: int| 0 <= i < n implies !sep.contains(#[trigger] s.take(n)[i]) by {
                    assert(s.take(n)[i] == s[i]);
                }
            }
        }
    }
}

/// Finds where the run of characters that starts at `from` ends: at the next
/// separator or at the end of the text.
pub fn scan_run(chars: &Vec<char>, from: usize, sep: Separators) -> (to: usize)
    requires
        from <= chars@.len(),
    ensures
        to == from + run_len(chars@.skip(from as int), sep),
        from <= to <= chars@.len(),
{
    let n = chars.len();
    let ghost rest = chars@.skip(from as int);
    let mut j: usize = from;
    proof {
        assert(rest.skip(0) == rest);
    }
    while j < n && !sep.has(chars[j])
        invariant
            n == chars@.len(),
            from <= j <= n,
            rest == chars@.skip(from as int),
            run_len(rest, sep) == (j - from) + run_len(rest.skip(j - from), sep),
        decreases n - j,
    {
        proof {
            let tail = rest.skip(j - from);
            assert(tail[0] == chars@[j as int]);
            assert(tail.drop_first() == rest.skip(j - from + 1));
        }
        j += 1;
    }
    proof {
        let tail = rest.skip(j - from);
        if j < n {
            assert(tail[0] == chars@[j as int]);
        }
    }
    j
}

/// Whether `chars` starts with the characters of `prefix`.
pub fn has_prefix(chars: &Vec<char>, prefix: &str) -> (r: bool)
    ensures
        r == prefix@.is_prefix_of(chars@),
{
    let p = chars_of(prefix);
    if p.len() > chars.len() {
        return false;
    }
    let mut i: usize = 0;
    while i < p.len()
        invariant
            i <= p@.len() <= chars@.len(),
            p@ == prefix@,
            forall|k: int| 0 <= k < i ==> p@[k] == chars@[k],
        decreases p@.len() - i,
    {
        if p[i] != chars[i] {
            proof {
                if prefix@.is_prefix_of(chars@) {
                    assert(chars@.subrange(0, p@.len() as int)[i as int] == chars@[i as int]);
                }
            }
            return false;
        }
        i += 1;
    }
    proof {
        assert(chars@.subrange(0, p@.len() as int) =~= p@);
    }
    true
}

/// The view of a list of strings: the character sequence of each.
pub open spec fn texts(v: Seq<String>) -> Seq<Seq<char>> {
    Seq::new(v.len(), |i: int| v[i]@)
}

/// Appending a string to a list appends its characters to the list's view.
pub proof fn lemma_texts_push(v: Seq<String>, s: String)
    ensures
        texts(v.push(s)) == texts(v).push(s@),
{
    assert(texts(v.push(s)) =~= texts(v).push(s@));
}

/// Copies a list of strings.
pub fn copy_texts(list: &Vec<String>) -> (r: Vec<String>)
    ensures
        texts(r@) == texts(list@),
{
    let mut r: Vec<String> = Vec::new();
    let mut i: usize = 0;
    while i < list.len()
        invariant
            i <= list@.len(),
            r@.len() == i,
            forall|k: int| 0 <= k < i ==> r@[k]@ == list@[k]@,
        decreases list@.len() - i,
    {
        r.push(list[i].clone());
        i += 1;
    }
    assert(texts(r@) =~= texts(list@));
    r
}

/// Splits `chars` into its fields.
pub fn split_fields(chars: &Vec<char>, sep: Separators) -> (out: Vec<String>)
    ensures
        texts(out@) == fields(chars@, sep),
        forall|k: int| 0 <= k < out@.len() ==> is_field((#[trigger] out@[k])@, sep),
{
    let n = chars.len();
    let mut out: Vec<String> = Vec::new();
    let mut i: usize = 0;
    proof {
        assert(chars@.skip(0) == chars@);
        assert(texts(out@) + fields(chars@.skip(0), sep) == fields(chars@, sep));
    }
    while i < n
        invariant
            n == chars@.len(),
            i <= n,
            texts(out@) + fields(chars@.skip(i as int), sep) == fields(chars@, sep),
        decreases n - i,
    {
        let ghost rest = chars@.skip(i as int);
        if sep.has(chars[i]) {
            proof {
                assert(rest[0] == chars@[i as int]);
                assert(rest.drop_first() == chars@.skip(i as int + 1));
            }
            i += 1;
        } else {
            let start = i;
            let j = scan_run(chars, start, sep);
            proof {
                assert(rest[0] == chars@[start as int]);
                assert(j > start);
                assert(rest.take(j - start) == chars@.subrange(start as int, j as int));
                assert(rest.skip(j - start) == chars@.skip(j as int));
            }
            let field = string_of(chars, start, j);
            let ghost before = out@;
            out.push(field);
            proof {
                lemma_texts_push(before, field);
                assert(texts(out@) == texts(before) + seq![field@]);
                assert(fields(rest, sep) == seq![rest.take(j - start)] + fields(
                    rest.skip(j - start),
                    sep,
                ));
                assert(texts(out@) + fields(chars@.skip(j as int), sep) == texts(before) + (
                seq![field@] + fields(chars@.skip(j as int), sep)));
            }
            i = j;
        }
    }
    proof {
        assert(chars@.skip(n as int).len() == 0);
        assert(texts(out@) + Seq::<Seq<char>>::empty() == texts(out@));
        lemma_fields_clean(chars@, sep);
        assert forall|k: int| 0 <= k < out@.len() implies is_field((#[trigger] out@[k])@, sep) by {
            assert(texts(out@)[k] == out@[k]@);
        }
    }
    out
}

} // verus!
