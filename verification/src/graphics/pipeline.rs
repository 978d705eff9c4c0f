use vstd::prelude::*;

verus! {

/// The pixel size of a terminal of `screen_width` columns and
/// `screen_height` rows: each character cell shows two pixels stacked.
pub open spec fn spec_real_size(screen_width: u16, screen_height: u16) -> (usize, usize) {
    (screen_width as usize, (screen_height * 2) as usize)
}

/// The pixel size of the frame for a terminal of the given size.
pub fn real_size(screen_width: u16, screen_height: u16) -> (size: (usize, usize))
    ensures
        size == spec_real_size(screen_width, screen_height),
        size.0 == screen_width,
        size.1 == 2 * screen_height,
{
    (screen_width as usize, screen_height as usize * 2)
}

/// What a resize of the pipeline does when the terminal reports
/// `screen_width` x `screen_height` and the pipeline was set up for
/// `current_width` x `current_height`: nothing when the size is the same,
/// otherwise a resize of the frame to the new pixel size.
pub fn resize_target(
    current_width: u16,
    current_height: u16,
    screen_width: u16,
    screen_height: u16,
) -> (target: Option<(usize, usize)>)
    ensures
        target is None <==> (current_width == screen_width && current_height == screen_height),
        target is Some ==> target->0 == spec_real_size(screen_width, screen_height),
        target matches Some((w, h)) ==> w == screen_width && h == 2 * screen_height,
{
    if current_width == screen_width && current_height == screen_height {
        return None;
    }
    Some(real_size(screen_width, screen_height))
}

/// How the frame is printed to the terminal: with ANSI colours, or as an
/// ASCII brightness ramp.
#[derive(Clone, Copy, Debug, PartialEq, Eq, Structural)]
pub enum PrinterType {
    Color,
    Ascii,
}

/// The printer chosen by the first command-line argument: `-a` selects the
/// ASCII ramp, anything else the colour printer.
pub open spec fn spec_printer_type(arg: Seq<char>) -> PrinterType {
    if arg == "-a"@ {
        PrinterType::Ascii
    } else {
        PrinterType::Color
    }
}

/// Picks the printer from the first command-line argument.
pub fn printer_type_from_arg(arg: &String) -> (printer_type: PrinterType)
    ensures
        printer_type == spec_printer_type(arg@),
        printer_type == (if arg@ == "-a"@ { PrinterType::Ascii } else { PrinterType::Color }),
{
    let ascii_flag: String = "-a".to_owned();
    if *arg == ascii_flag {
        PrinterType::Ascii
    } else {
        PrinterType::Color
    }
}

/// The frame keeps the terminal's width in pixels and has two pixel rows
/// per terminal row, for every terminal size.
pub proof fn lemma_real_size_doubles_rows(screen_width: u16, screen_height: u16)
    ensures
        spec_real_size(screen_width, screen_height).0 == screen_width,
        spec_real_size(screen_width, screen_height).1 == 2 * screen_height,
{
}

/// A resize to a new terminal size of `w` x `h` sets the frame to `w`
/// pixels by `2 * h` pixels; the pixel size depends on the new terminal
/// size alone.
pub proof fn lemma_resize_size(w1: u16, h1: u16, w2: u16, h2: u16)
    ensures
        spec_real_size(w1, h1) == spec_real_size(w2, h2) <==> (w1 == w2 && h1 == h2),
        spec_real_size(w1, h1) == (w1 as usize, (2 * h1) as usize),
{
}

/// Only the flag `-a` selects the ASCII printer; every other argument,
/// the empty one included, selects the colour printer.
pub proof fn lemma_printer_flag(arg: Seq<char>)
    ensures
        spec_printer_type(arg) == PrinterType::Ascii <==> arg == "-a"@,
        spec_printer_type(arg) == PrinterType::Color <==> arg != "-a"@,
{
}

} // verus!
