use vstd::prelude::*;

verus! {

/// Characters treated as whitespace when text nodes are trimmed.
pub open spec fn is_space(c: char) -> bool {
    c == ' ' || c == '\t' || c == '\n' || c == '\r'
}

/// Index of the first non-whitespace character at or after `i`.
pub open spec fn first_non_space(s: Seq<char>, i: int) -> int
    decreases s.len() - i,
{
    if i < 0 || i >= s.len() {
        s.len() as int
    } else if is_space(s[i]) {
        first_non_space(s, i + 1)
    } else {
        i
    }
}

/// End (exclusive) of the last non-whitespace character at or before `j - 1`.
pub open spec fn end_non_space(s: Seq<char>, j: int) -> int
    decreases j,
{
    if j <= 0 || j > s.len() {
        0
    } else if is_space(s[j - 1]) {
        end_non_space(s, j - 1)
    } else {
        j
    }
}

/// The text with leading and trailing whitespace removed.
pub open spec fn trim_spec(s: Seq<char>) -> Seq<char> {
    let lo = first_non_space(s, 0);
    let hi = end_non_space(s, s.len() as int);
    if lo <= hi {
        s.subrange(lo, hi)
    } else {
        Seq::empty()
    }
}

/// What one character of text content becomes in serialized markup.
pub open spec fn esc_text_char(c: char) -> Seq<char> {
    if c == '&' {
        seq!['&', 'a', 'm', 'p', ';']
    } else if c == '<' {
        seq!['&', 'l', 't', ';']
    } else if c == '>' {
        seq!['&', 'g', 't', ';']
    } else {
        seq![c]
    }
}

/// What one character of an attribute value becomes in serialized markup.
pub open spec fn esc_attr_char(c: char) -> Seq<char> {
    if c == '"' {
        seq!['&', 'q', 'u', 'o', 't', ';']
    } else {
        esc_text_char(c)
    }
}

/// Escaped form of the text from position `i` on.
pub open spec fn escape_text_from(s: Seq<char>, i: int) -> Seq<char>
    decreases s.len() - i,
{
    if i < 0 || i >= s.len() {
        Seq::empty()
    } else {
        esc_text_char(s[i]) + escape_text_from(s, i + 1)
    }
}

/// Escaped form of the attribute value from position `i` on.
pub open spec fn escape_attr_from(s: Seq<char>, i: int) -> Seq<char>
    decreases s.len() - i,
{
    if i < 0 || i >= s.len() {
        Seq::empty()
    } else {
        esc_attr_char(s[i]) + escape_attr_from(s, i + 1)
    }
}

pub open spec fn is_digit(c: char) -> bool {
    '0' <= c && c <= '9'
}

/// Digits with at most one decimal point, at least one digit in total.
pub open spec fn digits_ok(s: Seq<char>, i: int, seen_dot: bool, seen_digit: bool) -> bool
    decreases s.len() - i,
{
    if i < 0 || i >= s.len() {
        seen_digit
    } else if is_digit(s[i]) {
        digits_ok(s, i + 1, seen_dot, true)
    } else if s[i] == '.' && !seen_dot {
        digits_ok(s, i + 1, true, seen_digit)
    } else {
        false
    }
}

/// Whether a resolved value is classified as a number: an optional sign
/// followed by digits holding at most one decimal point.
pub open spec fn is_numeric_spec(s: Seq<char>) -> bool {
    if s.len() > 0 && (s[0] == '-' || s[0] == '+') {
        digits_ok(s, 1, false, false)
    } else {
        digits_ok(s, 0, false, false)
    }
}

/// Compares two character vectors for equality.
pub fn chars_eq(a: &Vec<char>, b: &Vec<char>) -> (r: bool)
    ensures
        r == (a@ == b@),
{
    if a.len() != b.len() {
        assert(a@ != b@);
        return false;
    }
    let mut i: usize = 0;
    while i < a.len()
        invariant
            0 <= i <= a@.len(),
            a@.len() == b@.len(),
            forall|k: int| 0 <= k < i ==> a@[k] == b@[k],
        decreases a@.len() - i,
    {
        if a[i] != b[i] {
            assert(a@ != b@);
            return false;
        }
        i += 1;
    }
    assert(a@ =~= b@);
    true
}

/// Copies a string slice into a vector of its characters.
pub fn str_to_chars(s: &str) -> (r: Vec<char>)
    ensures
        r@ == s@,
{
    let n = s.unicode_len();
    let mut r: Vec<char> = Vec::new();
    let mut i: usize = 0;
    while i < n
        invariant
            0 <= i <= n,
            n == s@.len(),
            r@ == s@.subrange(0, i as int),
        decreases n - i,
    {
        let c = s.get_char(i);
        r.push(c);
        assert(r@ =~= s@.subrange(0, i + 1 as int));
        i += 1;
    }
    assert(r@ =~= s@);
    r
}

/// Relies on `String: FromIterator<char>`, which collects the characters in order.
#[verifier::external_body]
pub fn chars_to_string(v: &Vec<char>) -> (s: String)
    ensures
        s@ == v@,
{
    v.iter().collect()
}

/// If everything before `j` is whitespace, the trimmed end is zero.
proof fn lemma_end_all_space(s: Seq<char>, j: int)
    requires
        0 <= j <= s.len(),
        forall|k: int| 0 <= k < j ==> is_space(s[k]),
    ensures
        end_non_space(s, j) == 0,
    decreases j,
{
    if j > 0 {
        lemma_end_all_space(s, j - 1);
    }
}

/// Trims leading and trailing whitespace from a character vector.
pub fn trim_chars(s: &Vec<char>) -> (r: Vec<char>)
    ensures
        r@ == trim_spec(s@),
{
    let n = s.len();
    let mut lo: usize = 0;
    while lo < n && is_space_exec(s[lo])
        invariant
            0 <= lo <= n,
            n == s@.len(),
            first_non_space(s@, 0) == first_non_space(s@, lo as int),
            forall|k: int| 0 <= k < lo ==> is_space(s@[k]),
        decreases n - lo,
    {
        lo += 1;
    }
    assert(first_non_space(s@, 0) == lo as int);
    let mut hi: usize = n;
    while hi > lo && is_space_exec(s[hi - 1])
        invariant
            lo <= hi <= n,
            n == s@.len(),
            end_non_space(s@, n as int) == end_non_space(s@, hi as int),
            forall|k: int| 0 <= k < lo ==> is_space(s@[k]),
        decreases hi,
    {
        hi -= 1;
    }
    let mut r: Vec<char> = Vec::new();
    let mut k: usize = lo;
    while k < hi
        invariant
            lo <= k <= hi <= n,
            n == s@.len(),
            r@ == s@.subrange(lo as int, k as int),
        decreases hi - k,
    {
        r.push(s[k]);
        assert(r@ =~= s@.subrange(lo as int, k as int + 1));
        k += 1;
    }
    proof {
        let l = first_non_space(s@, 0);
        let h = end_non_space(s@, s@.len() as int);
        if hi > lo {
            assert(h == hi as int);
            assert(r@ =~= s@.subrange(l, h));
        } else if lo > 0 {
            lemma_end_all_space(s@, hi as int);
            assert(l > h);
            assert(r@ =~= Seq::<char>::empty());
        } else {
            assert(h == 0);
            assert(r@ =~= s@.subrange(0, 0));
        }
    }
    r
}

/// Escapes text content from position `i` on, as `escape_text_from` does.
pub fn escape_text_exec(s: &Vec<char>, i: usize) -> (r: Vec<char>)
    ensures
        r@ == escape_text_from(s@, i as int),
    decreases s@.len() - i,
{
    if i >= s.len() {
        let r: Vec<char> = Vec::new();
        assert(r@ =~= Seq::<char>::empty());
        return r;
    }
    let mut head: Vec<char> = Vec::new();
    let c = s[i];
    if c == '&' {
        head.push('&');
        head.push('a');
        head.push('m');
        head.push('p');
        head.push(';');
        assert(head@ =~= seq!['&', 'a', 'm', 'p', ';']);
    } else if c == '<' {
        head.push('&');
        head.push('l');
        head.push('t');
        head.push(';');
        assert(head@ =~= seq!['&', 'l', 't', ';']);
    } else if c == '>' {
        head.push('&');
        head.push('g');
        head.push('t');
        head.push(';');
        assert(head@ =~= seq!['&', 'g', 't', ';']);
    } else {
        head.push(c);
        assert(head@ =~= seq![c]);
    }
    let mut rest = escape_text_exec(s, i + 1);
    head.append(&mut rest);
    head
}

/// Escapes an attribute value from position `i` on, as `escape_attr_from`.
pub fn escape_attr_exec(s: &Vec<char>, i: usize) -> (r: Vec<char>)
    ensures
        r@ == escape_attr_from(s@, i as int),
    decreases s@.len() - i,
{
    if i >= s.len() {
        let r: Vec<char> = Vec::new();
        assert(r@ =~= Seq::<char>::empty());
        return r;
    }
    let mut head: Vec<char> = Vec::new();
    let c = s[i];
    if c == '"' {
        head.push('&');
        head.push('q');
        head.push('u');
        head.push('o');
        head.push('t');
        head.push(';');
        assert(head@ =~= seq!['&', 'q', 'u', 'o', 't', ';']);
    } else if c == '&' {
        head.push('&');
        head.push('a');
        head.push('m');
        head.push('p');
        head.push(';');
        assert(head@ =~= seq!['&', 'a', 'm', 'p', ';']);
    } else if c == '<' {
        head.push('&');
        head.push('l');
        head.push('t');
        head.push(';');
        assert(head@ =~= seq!['&', 'l', 't', ';']);
    } else if c == '>' {
        head.push('&');
        head.push('g');
        head.push('t');
        head.push(';');
        assert(head@ =~= seq!['&', 'g', 't', ';']);
    } else {
        head.push(c);
        assert(head@ =~= seq![c]);
    }
    let mut rest = escape_attr_exec(s, i + 1);
    head.append(&mut rest);
    head
}

/// Copies a character vector.
pub fn clone_chars(v: &Vec<char>) -> (r: Vec<char>)
    ensures
        r@ == v@,
{
    let mut r: Vec<char> = Vec::new();
    let mut k: usize = 0;
    while k < v.len()
        invariant
            0 <= k <= v@.len(),
            r@ == v@.subrange(0, k as int),
        decreases v@.len() - k,
    {
        r.push(v[k]);
        assert(r@ =~= v@.subrange(0, k as int + 1));
        k += 1;
    }
    assert(r@ =~= v@);
    r
}

/// Whether a character counts as whitespace for trimming.
pub fn is_space_exec(c: char) -> (r: bool)
    ensures
        r == is_space(c),
{
    c == ' ' || c == '\t' || c == '\n' || c == '\r'
}

} // verus!
