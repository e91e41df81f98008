use vstd::prelude::*;

verus! {

/// The characters with Unicode's White_Space property.
pub open spec fn is_white_space(c: char) -> bool {
    let n = c as int;
    ||| 0x09 <= n <= 0x0D
    ||| n == 0x20
    ||| n == 0x85
    ||| n == 0xA0
    ||| n == 0x1680
    ||| 0x2000 <= n <= 0x200A
    ||| n == 0x2028
    ||| n == 0x2029
    ||| n == 0x202F
    ||| n == 0x205F
    ||| n == 0x3000
}

/// Whether `c` has Unicode's White_Space property.
pub fn is_whitespace_char(c: char) -> (w: bool)
    ensures
        w == is_white_space(c),
{
    let n = c as u32;
    (0x09 <= n && n <= 0x0D) || n == 0x20 || n == 0x85 || n == 0xA0 || n == 0x1680
        || (0x2000 <= n && n <= 0x200A) || n == 0x2028 || n == 0x2029 || n == 0x202F
        || n == 0x205F || n == 0x3000
}

/// `s` without its leading white space.
pub open spec fn trim_start_spec(s: Seq<char>) -> Seq<char>
    decreases s.len(),
{
    if s.len() > 0 && is_white_space(s[0]) {
        trim_start_spec(s.drop_first())
    } else {
        s
    }
}

/// `s` without its trailing white space.
pub open spec fn trim_end_spec(s: Seq<char>) -> Seq<char>
    decreases s.len(),
{
    if s.len() > 0 && is_white_space(s.last()) {
        trim_end_spec(s.drop_last())
    } else {
        s
    }
}

/// `s` without leading and trailing white space.
pub open spec fn trim_spec(s: Seq<char>) -> Seq<char> {
    trim_end_spec(trim_start_spec(s))
}

/// Number of leading white-space characters of `s`, found by scanning.
fn leading_space(s: &str) -> (i: usize)
    ensures
        i <= s@.len(),
        trim_start_spec(s@) == s@.subrange(i as int, s@.len() as int),
{
    let n = s.unicode_len();
    let mut i: usize = 0;
    assert(s@.subrange(0, n as int) =~= s@);
    while i < n && is_whitespace_char(s.get_char(i))
        invariant
            n == s@.len(),
            i <= n,
            trim_start_spec(s@) == trim_start_spec(s@.subrange(i as int, n as int)),
        decreases n - i,
    {
        assert(s@.subrange(i as int, n as int).drop_first() =~= s@.subrange(i + 1, n as int));
        i = i + 1;
    }
    if i < n {
        assert(!is_white_space(s@.subrange(i as int, n as int)[0]));
    } else {
        assert(s@.subrange(i as int, n as int).len() == 0);
    }
    i
}

/// `s` without its leading white space.
pub fn trim_start(s: &str) -> (t: &str)
    ensures
        t@ == trim_start_spec(s@),
{
    let n = s.unicode_len();
    let i = leading_space(s);
    s.substring_char(i, n)
}

/// `s` without leading and trailing white space.
pub fn trim(s: &str) -> (t: &str)
    ensures
        t@ == trim_spec(s@),
{
    let u = trim_start(s);
    let n = u.unicode_len();
    let mut j: usize = n;
    assert(u@.subrange(0, n as int) =~= u@);
    while j > 0 && is_whitespace_char(u.get_char(j - 1))
        invariant
            n == u@.len(),
            j <= n,
            trim_end_spec(u@) == trim_end_spec(u@.subrange(0, j as int)),
        decreases j,
    {
        assert(u@.subrange(0, j as int).drop_last() =~= u@.subrange(0, j - 1));
        j = j - 1;
    }
    if j > 0 {
        assert(!is_white_space(u@.subrange(0, j as int).last()));
    } else {
        assert(u@.subrange(0, j as int).len() == 0);
    }
    u.substring_char(0, j)
}

/// ASCII lowercase of one character: 'A'..'Z' become 'a'..'z', every other
/// character stays as it is.
pub open spec fn ascii_lower_char(c: char) -> char {
    if 'A' <= c <= 'Z' { ((c as int) + 32) as char } else { c }
}

/// ASCII lowercase of a text, character by character.
pub open spec fn ascii_lowercase(s: Seq<char>) -> Seq<char> {
    Seq::new(s.len(), |i: int| ascii_lower_char(s[i]))
}

/// What `str::to_lowercase` returns for a text: its Unicode lowercase
/// mapping (Lowercase property, with the context rule for final sigma).
pub uninterp spec fn lowercase(s: Seq<char>) -> Seq<char>;

/// What `str::to_lowercase` returns: on ASCII text, the ASCII lowercase
/// (Unicode maps 'A'..'Z' to 'a'..'z' and leaves the other ASCII characters
/// as they are); on other text, `lowercase` of it.
pub open spec fn to_lowercase_spec(s: Seq<char>) -> Seq<char> {
    if vstd::utf8::is_ascii_chars(s) { ascii_lowercase(s) } else { lowercase(s) }
}

/// Calls `str::to_lowercase`. Claimed: the result depends on the text alone
/// and is named `lowercase` of it; on ASCII text it is the ASCII lowercase.
/// The mapping of non-ASCII characters (tables of the Unicode Character
/// Database) is left unsaid.
#[verifier::external_body]
pub(crate) fn to_lowercase(s: &str) -> (l: String)
    ensures
        l@ == lowercase(s@),
        vstd::utf8::is_ascii_chars(s@) ==> l@ == ascii_lowercase(s@),
{
    s.to_lowercase()
}

} // verus!
