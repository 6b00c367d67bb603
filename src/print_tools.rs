use vstd::prelude::*;

verus! {

/// The width used when the terminal does not report one.
pub const DEFAULT_WIDTH: usize = 70;

/// The column count that a reported terminal width gives.
pub open spec fn width_from(size: Option<u16>) -> usize {
    match size {
        Some(w) => if w > 0 { w as usize } else { DEFAULT_WIDTH },
        None => DEFAULT_WIDTH,
    }
}

/// The first `min(width, len)` characters of `s`.
pub open spec fn clipped(s: Seq<char>, width: int) -> Seq<char> {
    if width < s.len() {
        s.take(width)
    } else {
        s
    }
}

/// `s` written `n` times in a row.
pub open spec fn repeated(s: Seq<char>, n: nat) -> Seq<char>
    decreases n,
{
    if n == 0 {
        Seq::empty()
    } else {
        repeated(s, (n - 1) as nat) + s
    }
}

/// The number of spaces on each side of the title.
pub open spec fn title_padding(width: int) -> nat {
    if width >= 10 {
        ((width - 10) / 2) as nat
    } else {
        0
    }
}

/// The centred title line, before clipping.
pub open spec fn title_line(width: int) -> Seq<char> {
    let pad = repeated(" "@, title_padding(width));
    pad + "Todo List"@ + pad
}

/// The three banner lines, each clipped to `width`, joined by newlines.
pub open spec fn banner_text(width: int) -> Seq<char> {
    let rule = clipped(repeated("#"@, width as nat), width);
    rule + "\n"@ + clipped(title_line(width), width) + "\n"@ + rule
}

/// Relies on terminal_size::terminal_size: the columns of the terminal on
/// stdout, stderr or stdin, or `None` where none of them is a terminal.
#[verifier::external_body]
fn query_terminal_width() -> (r: Option<u16>) {
    terminal_size::terminal_size().map(|(terminal_size::Width(w), _)| w)
}

/// The column count for a reported terminal width, falling back to the
/// default where none, or a width of zero, was reported.
pub fn width_or_default(size: Option<u16>) -> (r: usize)
    ensures
        r == width_from(size),
{
    match size {
        Some(w) => if w > 0 { w as usize } else { DEFAULT_WIDTH },
        None => DEFAULT_WIDTH,
    }
}

/// The current terminal width, or the default where it cannot be found.
pub fn get_terminal_width() -> (r: usize)
    ensures
        exists|size: Option<u16>| r == width_from(size),
        1 <= r <= u16::MAX,
{
    let size = query_terminal_width();
    width_or_default(size)
}

/// The first `min(width, length)` characters of `text`.
pub fn clip_to_width(text: &String, width: usize) -> (r: String)
    ensures
        r@ == clipped(text@, width as int),
{
    let n = text.as_str().unicode_len();
    let end = if width < n { width } else { n };
    let r = String::from_str(text.as_str().substring_char(0, end));
    assert(r@ =~= clipped(text@, width as int));
    r
}

/// `text` clipped to the current terminal width.
pub fn fit_to_term(text: &String) -> (r: String)
    ensures
        exists|w: int| 1 <= w <= u16::MAX && r@ == clipped(text@, w),
{
    let w = get_terminal_width();
    clip_to_width(text, w)
}

/// `fill` written `n` times in a row.
pub fn repeat_str(fill: &str, n: usize) -> (r: String)
    ensures
        r@ == repeated(fill@, n as nat),
{
    let mut r = String::new();
    let mut i: usize = 0;
    while i < n
        invariant
            i <= n,
            r@ == repeated(fill@, i as nat),
        decreases n - i,
    {
        r.append(fill);
        i = i + 1;
    }
    r
}

/// The banner for a terminal of `width` columns: a rule of `#`, the centred
/// title, and another rule, each clipped to `width`, joined by newlines.
pub fn banner(width: usize) -> (r: String)
    ensures
        r@ == banner_text(width as int),
{
    let hashes = repeat_str("#", width);
    let rule = clip_to_width(&hashes, width);
    let pad_len: usize = if width >= 10 { (width - 10) / 2 } else { 0 };
    let pad = repeat_str(" ", pad_len);
    let mut title = pad.clone();
    title.append("Todo List");
    title.append(pad.as_str());
    let title = clip_to_width(&title, width);
    let mut r = rule.clone();
    r.append("\n");
    r.append(title.as_str());
    r.append("\n");
    r.append(rule.as_str());
    r
}

/// The banner for the current terminal width.
pub fn header() -> (r: String)
    ensures
        exists|w: int| 1 <= w <= u16::MAX && r@ == banner_text(w),
{
    let w = get_terminal_width();
    banner(w)
}

/// A separator of `-` as wide as the current terminal.
pub fn line() -> (r: String)
    ensures
        exists|w: nat| 1 <= w <= u16::MAX && r@ == repeated("-"@, w),
{
    let w = get_terminal_width();
    repeat_str("-", w)
}

} // verus!
