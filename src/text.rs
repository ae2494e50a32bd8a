//! Character-level text helpers: name normalization, decimal rendering and
//! the composition of links, file names and listing lines.
use vstd::prelude::*;

verus! {

/// The character a title character becomes in a search identifier.
pub open spec fn normalize_char(c: char) -> char {
    if c == ' ' || c == '-' {
        '_'
    } else {
        c
    }
}

/// A title with every space and hyphen replaced by an underscore.
pub open spec fn normalized(s: Seq<char>) -> Seq<char> {
    s.map_values(|c: char| normalize_char(c))
}

/// Normalizing an already normalized title leaves it unchanged, and spaces
/// and hyphens alike become underscores.
pub proof fn lemma_normalization_idempotent(s: Seq<char>)
    ensures
        normalized(normalized(s)) == normalized(s),
        normalized(s).len() == s.len(),
        forall|i: int|
            0 <= i < s.len() && (s[i] == ' ' || s[i] == '-') ==> #[trigger] normalized(s)[i]
                == '_',
{
    assert(normalized(normalized(s)) =~= normalized(s));
}

/// Relies on `String`'s `FromIterator<char>`: the characters are kept in order.
#[verifier::external_body]
pub(crate) fn string_from_chars(v: &Vec<char>) -> (r: String)
    ensures
        r@ == v@,
{
    v.iter().collect()
}

/// The characters of `s`, in order.
pub fn chars_of(s: &str) -> (r: Vec<char>)
    ensures
        r@ == s@,
{
    let mut out: Vec<char> = Vec::new();
    for c in it: s.chars()
        invariant
            it.seq() == s@,
            out@ == it.seq().take(it.index()),
    {
        out.push(c);
    }
    out
}

/// Replaces spaces and hyphens with underscores.
pub fn format_manga_name(manga_name: &str) -> (r: String)
    ensures
        r@ == normalized(manga_name@),
{
    let cs = chars_of(manga_name);
    let mut out: Vec<char> = Vec::new();
    let mut i: usize = 0;
    while i < cs.len()
        invariant
            cs@ == manga_name@,
            i <= cs.len(),
            out@ == normalized(cs@.take(i as int)),
        decreases cs.len() - i,
    {
        let c = cs[i];
        let d = if c == ' ' || c == '-' {
            '_'
        } else {
            c
        };
        out.push(d);
        assert(cs@.take(i + 1) == cs@.take(i as int).push(c));
        i += 1;
    }
    assert(cs@.take(cs.len() as int) == cs@);
    string_from_chars(&out)
}

/// Appends the characters of `s` to `out`.
pub fn push_chars(out: &mut Vec<char>, s: &str)
    ensures
        final(out)@ == old(out)@ + s@,
{
    let mut cs = chars_of(s);
    out.append(&mut cs);
}

/// The character of a decimal digit.
pub open spec fn digit_char(d: nat) -> char
    recommends
        d < 10,
{
    ((d + 48) as u8) as char
}

/// The decimal notation of `n`, without leading zeros.
pub open spec fn decimal(n: nat) -> Seq<char>
    decreases n,
{
    if n < 10 {
        seq![digit_char(n)]
    } else {
        decimal(n / 10).push(digit_char(n % 10))
    }
}

/// Appends the decimal notation of `n` to `out`.
pub fn push_decimal(out: &mut Vec<char>, n: usize)
    ensures
        final(out)@ == old(out)@ + decimal(n as nat),
    decreases n,
{
    let d: u8 = (n % 10) as u8;
    if n >= 10 {
        push_decimal(out, n / 10);
        out.push((d + 48u8) as char);
        assert(decimal(n as nat) == decimal((n / 10) as nat).push(digit_char((n % 10) as nat)));
        assert(final(out)@ =~= old(out)@ + decimal(n as nat));
    } else {
        out.push((d + 48u8) as char);
        assert(final(out)@ =~= old(out)@ + decimal(n as nat));
    }
}

/// The decimal notation of `n` as a string.
pub fn decimal_string(n: usize) -> (r: String)
    ensures
        r@ == decimal(n as nat),
{
    let mut out: Vec<char> = Vec::new();
    push_decimal(&mut out, n);
    assert(out@ =~= decimal(n as nat));
    string_from_chars(&out)
}

/// The text that joins a title link and a chapter number.
pub open spec fn chapter_infix() -> Seq<char> {
    seq!['/', 'c', 'h', 'a', 'p', 't', 'e', 'r', '-']
}

/// The extension of a cached page image.
pub open spec fn image_suffix() -> Seq<char> {
    seq!['.', 'j', 'p', 'g']
}

/// The search request for a title: the search base followed by the normalized title.
pub fn search_url(base: &str, manga_name: &str) -> (r: String)
    ensures
        r@ == base@ + normalized(manga_name@),
{
    let name = format_manga_name(manga_name);
    let mut out: Vec<char> = Vec::new();
    push_chars(&mut out, base);
    push_chars(&mut out, name.as_str());
    string_from_chars(&out)
}

/// The page of chapter `chapter_number` of the title at `manga_link`.
pub fn chapter_link(manga_link: &str, chapter_number: usize) -> (r: String)
    ensures
        r@ == manga_link@ + chapter_infix() + decimal(chapter_number as nat),
{
    let mut out: Vec<char> = Vec::new();
    push_chars(&mut out, manga_link);
    proof {
        reveal_strlit("/chapter-");
    }
    push_chars(&mut out, "/chapter-");
    assert("/chapter-"@ =~= chapter_infix());
    push_decimal(&mut out, chapter_number);
    string_from_chars(&out)
}

/// The listing line `[index] title` shown for one search result.
pub fn title_line(index: usize, title: &str) -> (r: String)
    ensures
        r@ == seq!['['] + decimal(index as nat) + seq![']', ' '] + title@,
{
    let mut out: Vec<char> = Vec::new();
    out.push('[');
    push_decimal(&mut out, index);
    out.push(']');
    out.push(' ');
    push_chars(&mut out, title);
    assert(out@ =~= seq!['['] + decimal(index as nat) + seq![']', ' '] + title@);
    string_from_chars(&out)
}

/// The file name of the page image at 1-based position `index`.
pub fn image_file_name(index: usize) -> (r: String)
    ensures
        r@ == decimal(index as nat) + image_suffix(),
{
    let mut out: Vec<char> = Vec::new();
    push_decimal(&mut out, index);
    proof {
        reveal_strlit(".jpg");
    }
    push_chars(&mut out, ".jpg");
    assert(".jpg"@ =~= image_suffix());
    assert(out@ =~= decimal(index as nat) + image_suffix());
    string_from_chars(&out)
}

/// The path of the page image at 1-based position `index` under `dir`.
pub fn image_path(dir: &str, index: usize) -> (r: String)
    ensures
        r@ == dir@ + seq!['/'] + decimal(index as nat) + image_suffix(),
{
    let mut out: Vec<char> = Vec::new();
    push_chars(&mut out, dir);
    out.push('/');
    push_decimal(&mut out, index);
    proof {
        reveal_strlit(".jpg");
    }
    push_chars(&mut out, ".jpg");
    assert(".jpg"@ =~= image_suffix());
    assert(out@ =~= dir@ + seq!['/'] + decimal(index as nat) + image_suffix());
    string_from_chars(&out)
}

} // verus!
