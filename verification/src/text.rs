use vstd::prelude::*;

verus! {

/// Whether `c` is white space: one of the code points that carry the Unicode
/// property White_Space.
pub open spec fn is_whitespace(c: char) -> bool {
    let u = c as u32;
    ||| 0x09 <= u <= 0x0D
    ||| u == 0x20
    ||| u == 0x85
    ||| u == 0xA0
    ||| u == 0x1680
    ||| 0x2000 <= u <= 0x200A
    ||| u == 0x2028
    ||| u == 0x2029
    ||| u == 0x202F
    ||| u == 0x205F
    ||| u == 0x3000
}

/// Whether every character of `s` is white space.
pub open spec fn all_whitespace(s: Seq<char>) -> bool {
    forall|i: int| 0 <= i < s.len() ==> is_whitespace(#[trigger] s[i])
}

/// `s` without the white space it starts with.
pub open spec fn trimmed_start(s: Seq<char>) -> Seq<char>
    decreases s.len(),
{
    if s.len() > 0 && is_whitespace(s[0]) {
        trimmed_start(s.drop_first())
    } else {
        s
    }
}

/// `s` without the white space it ends with.
pub open spec fn trimmed_end(s: Seq<char>) -> Seq<char>
    decreases s.len(),
{
    if s.len() > 0 && is_whitespace(s.last()) {
        trimmed_end(s.drop_last())
    } else {
        s
    }
}

/// `s` without the white space around it.
pub open spec fn trimmed(s: Seq<char>) -> Seq<char> {
    trimmed_end(trimmed_start(s))
}

/// Where the white space at the start of `s` ends, the rest of `s` is what
/// remains of it.
pub proof fn lemma_trimmed_start_at(s: Seq<char>, start: int)
    requires
        0 <= start <= s.len(),
        all_whitespace(s.take(start)),
        start == s.len() || !is_whitespace(s[start]),
    ensures
        trimmed_start(s) == s.skip(start),
    decreases start,
{
    if start > 0 {
        assert(s.take(start)[0] == s[0]);
        let rest = s.drop_first();
        assert forall|i: int| 0 <= i < rest.take(start - 1).len() implies is_whitespace(
            #[trigger] rest.take(start - 1)[i],
        ) by {
            assert(rest.take(start - 1)[i] == s.take(start)[i + 1]);
        }
        lemma_trimmed_start_at(rest, start - 1);
    }
}

/// Where the white space at the end of `s` begins, what comes before is what
/// remains of `s`.
pub proof fn lemma_trimmed_end_at(s: Seq<char>, end: int)
    requires
        0 <= end <= s.len(),
        all_whitespace(s.skip(end)),
        end == 0 || !is_whitespace(s[end - 1]),
    ensures
        trimmed_end(s) == s.take(end),
    decreases s.len() - end,
{
    if end < s.len() {
        assert(s.skip(end)[s.len() - 1 - end] == s.last());
        let rest = s.drop_last();
        assert forall|i: int| 0 <= i < rest.skip(end).len() implies is_whitespace(
            #[trigger] rest.skip(end)[i],
        ) by {
            assert(rest.skip(end)[i] == s.skip(end)[i]);
        }
        lemma_trimmed_end_at(rest, end);
    }
}

/// White space around a text that neither starts nor ends with any is all that
/// trimming removes.
pub proof fn lemma_trimmed_of_padded(before: Seq<char>, core: Seq<char>, after: Seq<char>)
    requires
        all_whitespace(before),
        all_whitespace(after),
        core.len() > 0 ==> !is_whitespace(core[0]) && !is_whitespace(core.last()),
    ensures
        trimmed(before + core + after) == core,
{
    let s = before + core + after;
    if core.len() == 0 {
        lemma_trimmed_start_at(s, s.len() as int);
        lemma_trimmed_end_at(core, 0);
    } else {
        lemma_trimmed_start_at(s, before.len() as int);
        lemma_trimmed_end_at(s.skip(before.len() as int), core.len() as int);
    }
}

/// Whether `c` is white space.
pub fn char_is_whitespace(c: char) -> (b: bool)
    ensures
        b == is_whitespace(c),
{
    let u: u32 = c as u32;
    (0x09 <= u && u <= 0x0D) || u == 0x20 || u == 0x85 || u == 0xA0 || u == 0x1680 || (0x2000 <= u
        && u <= 0x200A) || u == 0x2028 || u == 0x2029 || u == 0x202F || u == 0x205F || u == 0x3000
}

/// The characters of `s`, in order.
pub fn to_chars(s: &str) -> (chars: Vec<char>)
    ensures
        chars@ == s@,
{
    let mut chars: Vec<char> = Vec::new();
    for c in it: s.chars()
        invariant
            it.seq() == s@,
            chars@ == it.seq().take(it.index() as int),
    {
        chars.push(c);
    }
    chars
}

/// `s` without the white space around it.
pub fn trim(s: &str) -> (t: &str)
    ensures
        t@ == trimmed(s@),
{
    let chars = to_chars(s);
    let n = chars.len();
    let mut start: usize = 0;
    while start < n && char_is_whitespace(chars[start])
        invariant
            start <= n,
            n == chars@.len(),
            all_whitespace(chars@.take(start as int)),
        decreases n - start,
    {
        start += 1;
    }
    let mut end: usize = n;
    while end > start && char_is_whitespace(chars[end - 1])
        invariant
            start <= end <= n,
            n == chars@.len(),
            all_whitespace(chars@.skip(end as int)),
        decreases end,
    {
        end -= 1;
        assert forall|i: int| 0 <= i < chars@.skip(end as int).len() implies is_whitespace(
            #[trigger] chars@.skip(end as int)[i],
        ) by {
            if i > 0 {
                assert(chars@.skip(end as int)[i] == chars@.skip(end + 1)[i - 1]);
            }
        }
    }
    proof {
        let rest = s@.skip(start as int);
        let len = end - start;
        lemma_trimmed_start_at(s@, start as int);
        assert forall|i: int| 0 <= i < rest.skip(len).len() implies is_whitespace(
            #[trigger] rest.skip(len)[i],
        ) by {
            assert(rest.skip(len)[i] == s@.skip(end as int)[i]);
        }
        lemma_trimmed_end_at(rest, len);
    }
    s.substring_char(start, end)
}

} // verus!
