//! Terminal styling: ANSI escape sequences and the framing text around code listings.
use vstd::prelude::*;

verus! {

/// Reset all attributes.
pub const RST: &'static str = "\x1b[0m";
/// Bold text.
pub const BOLD: &'static str = "\x1b[1m";
/// Dim text.
pub const DIM: &'static str = "\x1b[2m";
/// Bright green text.
pub const GRN: &'static str = "\x1b[92m";
/// Bright yellow text.
pub const YLW: &'static str = "\x1b[93m";
/// Bright blue text.
pub const BLU: &'static str = "\x1b[94m";
/// Bright magenta text.
pub const MAG: &'static str = "\x1b[95m";
/// Bright cyan text.
pub const CYN: &'static str = "\x1b[96m";
/// Grey text.
pub const GRY: &'static str = "\x1b[90m";
/// Bright red text.
pub const RED: &'static str = "\x1b[91m";

/// The gutter printed in front of every line of a code listing.
pub open spec fn gutter_text() -> Seq<char> {
    "  "@ + DIM@ + "│"@ + RST@ + "  "@
}

/// The gutter printed in front of every line of a code listing.
pub fn p() -> (r: String)
    ensures
        r@ == gutter_text(),
{
    let mut s = String::from_str("  ");
    s.append(DIM);
    s.append("│");
    s.append(RST);
    s.append("  ");
    s
}

/// The rule that closes the first line of a code listing's frame.
pub const TOP_RULE: &'static str = "────────────────────────────────────────────────────";
/// The bottom line of a code listing's frame.
pub const BOTTOM_RULE: &'static str = "  ╰──────────────────────────────────────────────────────────";

/// The two lines that open a code listing in language `lang`, with the
/// language name shown in `color`.
pub open spec fn code_open_text(lang: Seq<char>, color: Seq<char>) -> Seq<char> {
    DIM@ + "  ╭─ "@ + RST@ + BOLD@ + color + lang + RST@ + " "@ + DIM@ + TOP_RULE@ + "\n"@
        + "  │"@ + RST@ + "\n"@
}

/// The two lines that open a code listing in language `lang`, with the
/// language name shown in `color`.
pub fn code_open(lang: &str, color: &str) -> (r: String)
    ensures
        r@ == code_open_text(lang@, color@),
{
    let mut s = String::from_str(DIM);
    s.append("  ╭─ ");
    s.append(RST);
    s.append(BOLD);
    s.append(color);
    s.append(lang);
    s.append(RST);
    s.append(" ");
    s.append(DIM);
    s.append(TOP_RULE);
    s.append("\n");
    s.append("  │");
    s.append(RST);
    s.append("\n");
    s
}

/// Opens a C listing: the language name in red.
pub fn code_open_c() -> (r: String)
    ensures
        r@ == code_open_text("c"@, RED@),
{
    code_open("c", RED)
}

/// Opens a Rust listing: the language name in green.
pub fn code_open_rust() -> (r: String)
    ensures
        r@ == code_open_text("rust"@, GRN@),
{
    code_open("rust", GRN)
}

/// The lines that close a code listing, followed by an empty line.
pub open spec fn code_close_text() -> Seq<char> {
    DIM@ + "  │"@ + "\n"@ + BOTTOM_RULE@ + RST@ + "\n"@ + "\n"@
}

/// The lines that close a code listing, followed by an empty line.
pub fn code_close() -> (r: String)
    ensures
        r@ == code_close_text(),
{
    let mut s = String::from_str(DIM);
    s.append("  │");
    s.append("\n");
    s.append(BOTTOM_RULE);
    s.append(RST);
    s.append("\n");
    s.append("\n");
    s
}

/// The gutter of a code listing line, as the array demos call it.
pub fn cl() -> (r: String)
    ensures
        r@ == gutter_text(),
{
    p()
}

} // verus!
