//! A colourising, indenting JSON layout, driven one structural event at a
//! time by a JSON serializer.
use crate::text::{decimal, digit_char, integer_text, push_char};
use ansi_term::{Colour, Style};
use vstd::prelude::*;
use vstd::string::StringExecFns;

verus! {

/// Declares ansi_term's colour, whose variants this library names.
#[verifier::external_type_specification]
pub struct ExColour(Colour);

/// Declares ansi_term's style, whose public fields this library sets.
#[verifier::external_type_specification]
pub struct ExStyle(Style);

/// The SGR code that selects `c` as the foreground colour.
pub open spec fn foreground_code(c: Colour) -> Seq<char> {
    match c {
        Colour::Black => "30"@,
        Colour::Red => "31"@,
        Colour::Green => "32"@,
        Colour::Yellow => "33"@,
        Colour::Blue => "34"@,
        Colour::Purple => "35"@,
        Colour::Cyan => "36"@,
        Colour::White => "37"@,
        Colour::Fixed(n) => "38;5;"@ + decimal(n as int),
        Colour::RGB(r, g, b) => "38;2;"@ + decimal(r as int) + ";"@ + decimal(g as int) + ";"@
            + decimal(b as int),
    }
}

/// The SGR code that selects `c` as the background colour.
pub open spec fn background_code(c: Colour) -> Seq<char> {
    match c {
        Colour::Black => "40"@,
        Colour::Red => "41"@,
        Colour::Green => "42"@,
        Colour::Yellow => "43"@,
        Colour::Blue => "44"@,
        Colour::Purple => "45"@,
        Colour::Cyan => "46"@,
        Colour::White => "47"@,
        Colour::Fixed(n) => "48;5;"@ + decimal(n as int),
        Colour::RGB(r, g, b) => "48;2;"@ + decimal(r as int) + ";"@ + decimal(g as int) + ";"@
            + decimal(b as int),
    }
}

/// `parts` joined by semicolons.
pub open spec fn join_codes(parts: Seq<Seq<char>>) -> Seq<char>
    decreases parts.len(),
{
    if parts.len() == 0 {
        Seq::empty()
    } else if parts.len() == 1 {
        parts[0]
    } else {
        join_codes(parts.drop_last()) + ";"@ + parts.last()
    }
}

/// The code `code` when the attribute is on, else none.
pub open spec fn flag_code(on: bool, code: Seq<char>) -> Seq<Seq<char>> {
    if on {
        seq![code]
    } else {
        Seq::empty()
    }
}

/// The code that selects `c`, if any, as background or foreground.
pub open spec fn colour_codes(c: Option<Colour>, background: bool) -> Seq<Seq<char>> {
    match c {
        Some(c) => if background {
            seq![background_code(c)]
        } else {
            seq![foreground_code(c)]
        },
        None => Seq::empty(),
    }
}

/// The SGR codes of `s`, in the order in which a terminal receives them.
pub open spec fn style_codes(s: Style) -> Seq<Seq<char>> {
    flag_code(s.is_bold, "1"@) + flag_code(s.is_dimmed, "2"@) + flag_code(s.is_italic, "3"@)
        + flag_code(s.is_underline, "4"@) + flag_code(s.is_blink, "5"@) + flag_code(
        s.is_reverse,
        "7"@,
    ) + flag_code(s.is_hidden, "8"@) + flag_code(s.is_strikethrough, "9"@) + colour_codes(
        s.background,
        true,
    ) + colour_codes(s.foreground, false)
}

/// Whether `s` changes nothing about how text looks.
pub open spec fn is_plain(s: Style) -> bool {
    &&& s.foreground is None
    &&& s.background is None
    &&& !s.is_bold && !s.is_dimmed && !s.is_italic && !s.is_underline
    &&& !s.is_blink && !s.is_reverse && !s.is_hidden && !s.is_strikethrough
}

/// The escape sequence that turns `s` on; nothing for a plain style.
pub open spec fn ansi_prefix(s: Style) -> Seq<char> {
    if is_plain(s) {
        Seq::empty()
    } else {
        "\x1B["@ + join_codes(style_codes(s)) + "m"@
    }
}

/// The escape sequence that turns `s` off; nothing for a plain style.
pub open spec fn ansi_suffix(s: Style) -> Seq<char> {
    if is_plain(s) {
        Seq::empty()
    } else {
        "\x1B[0m"@
    }
}

/// `text` shown in the style `s`.
pub open spec fn painted(s: Style, text: Seq<char>) -> Seq<char> {
    ansi_prefix(s) + text + ansi_suffix(s)
}

/// Relies on ansi_term's `Style::paint` and the display of its result: the
/// style's prefix, the text, then the style's suffix.
#[verifier::external_body]
fn paint(s: &Style, text: &str) -> (r: String)
    ensures
        r@ == painted(*s, text@),
{
    s.paint(text).to_string()
}

/// A style of the given colour and weight, with no background.
pub open spec fn styled(foreground: Option<Colour>, is_bold: bool, is_dimmed: bool, is_italic: bool) -> Style {
    Style {
        foreground,
        background: None,
        is_bold,
        is_dimmed,
        is_italic,
        is_underline: false,
        is_blink: false,
        is_reverse: false,
        is_hidden: false,
        is_strikethrough: false,
    }
}

fn style(foreground: Option<Colour>, is_bold: bool, is_dimmed: bool, is_italic: bool) -> (r: Style)
    ensures
        r == styled(foreground, is_bold, is_dimmed, is_italic),
{
    Style {
        foreground,
        background: None,
        is_bold,
        is_dimmed,
        is_italic,
        is_underline: false,
        is_blink: false,
        is_reverse: false,
        is_hidden: false,
        is_strikethrough: false,
    }
}

/// Dim bold italic black null, bold italic green true and red false, blue
/// numbers, green strings with dim quotes and escapes, blue keys with dim
/// quotes and escapes, and bold punctuation.
pub open spec fn default_palette() -> Palette {
    Palette {
        null_style: styled(Some(Colour::Black), true, true, true),
        true_style: styled(Some(Colour::Green), true, false, true),
        false_style: styled(Some(Colour::Red), true, false, true),
        number_style: styled(Some(Colour::Blue), false, false, false),
        string_quote_style: styled(Some(Colour::Green), false, true, false),
        string_char_style: styled(Some(Colour::Green), false, false, false),
        string_escape_style: styled(Some(Colour::Green), false, true, false),
        array_bracket_style: styled(None, true, false, false),
        array_comma_style: styled(None, true, false, false),
        object_brace_style: styled(None, true, false, false),
        object_colon_style: styled(None, true, false, false),
        object_comma_style: styled(None, true, false, false),
        object_key_quote_style: styled(Some(Colour::Blue), false, true, false),
        object_key_char_style: styled(Some(Colour::Blue), false, false, false),
        object_key_escape_style: styled(Some(Colour::Blue), false, true, false),
    }
}

/// The style of each kind of output.
#[derive(Clone, Copy)]
pub struct Palette {
    pub null_style: Style,
    pub true_style: Style,
    pub false_style: Style,
    pub number_style: Style,
    pub string_quote_style: Style,
    pub string_char_style: Style,
    pub string_escape_style: Style,
    pub array_bracket_style: Style,
    pub array_comma_style: Style,
    pub object_brace_style: Style,
    pub object_colon_style: Style,
    pub object_comma_style: Style,
    pub object_key_quote_style: Style,
    pub object_key_char_style: Style,
    pub object_key_escape_style: Style,
}

impl Palette {
    pub fn new() -> (r: Palette)
        ensures
            r == default_palette(),
    {
        let bold = style(None, true, false, false);
        Palette {
            null_style: style(Some(Colour::Black), true, true, true),
            true_style: style(Some(Colour::Green), true, false, true),
            false_style: style(Some(Colour::Red), true, false, true),
            number_style: style(Some(Colour::Blue), false, false, false),
            string_quote_style: style(Some(Colour::Green), false, true, false),
            string_char_style: style(Some(Colour::Green), false, false, false),
            string_escape_style: style(Some(Colour::Green), false, true, false),
            array_bracket_style: bold,
            array_comma_style: bold,
            object_brace_style: bold,
            object_colon_style: bold,
            object_comma_style: bold,
            object_key_quote_style: style(Some(Colour::Blue), false, true, false),
            object_key_char_style: style(Some(Colour::Blue), false, false, false),
            object_key_escape_style: style(Some(Colour::Blue), false, true, false),
        }
    }
}

/// The escapes that a JSON serializer asks for inside a string.
pub enum CharEscape {
    Quote,
    ReverseSolidus,
    Solidus,
    Backspace,
    FormFeed,
    LineFeed,
    CarriageReturn,
    Tab,
    /// A control character without a short escape, written `\u00XX`.
    AsciiControl(u8),
}

/// The lower-case hexadecimal digit for `n`, where `n < 16`.
pub open spec fn hex_char(n: int) -> char {
    if n < 10 {
        digit_char(n as nat)
    } else if n == 10 {
        'a'
    } else if n == 11 {
        'b'
    } else if n == 12 {
        'c'
    } else if n == 13 {
        'd'
    } else if n == 14 {
        'e'
    } else {
        'f'
    }
}

/// The text of an escape.
pub open spec fn escape_text(e: CharEscape) -> Seq<char> {
    match e {
        CharEscape::Quote => "\\\""@,
        CharEscape::ReverseSolidus => "\\\\"@,
        CharEscape::Solidus => "\\/"@,
        CharEscape::Backspace => "\\b"@,
        CharEscape::FormFeed => "\\f"@,
        CharEscape::LineFeed => "\\n"@,
        CharEscape::CarriageReturn => "\\r"@,
        CharEscape::Tab => "\\t"@,
        CharEscape::AsciiControl(b) => "\\u00"@ + seq![hex_char((b / 16) as int), hex_char((b % 16) as int)],
    }
}

fn hex_digit(n: u8) -> (r: char)
    requires
        n < 16,
    ensures
        r == hex_char(n as int),
{
    match n {
        0 => '0',
        1 => '1',
        2 => '2',
        3 => '3',
        4 => '4',
        5 => '5',
        6 => '6',
        7 => '7',
        8 => '8',
        9 => '9',
        10 => 'a',
        11 => 'b',
        12 => 'c',
        13 => 'd',
        14 => 'e',
        _ => 'f',
    }
}

/// `n` levels of indentation, two spaces each.
pub open spec fn spaces(n: nat) -> Seq<char> {
    Seq::new(2 * n, |_i: int| ' ')
}

/// Appends `n` levels of indentation to `out`.
pub fn indent(out: &mut String, n: usize)
    ensures
        final(out)@ == old(out)@ + spaces(n as nat),
{
    let mut i: usize = 0;
    while i < n
        invariant
            i <= n,
            out@ == old(out)@ + spaces(i as nat),
        decreases n - i,
    {
        let ghost before = out@;
        out.append("  ");
        proof {
            reveal_strlit("  ");
            assert(before + "  "@ =~= old(out)@ + spaces((i + 1) as nat));
        }
        i = i + 1;
    }
}

/// The state of the readable layout: how deep the output is nested, whether
/// an object key is being written, and whether the innermost container has
/// a member yet.
#[derive(Clone, Copy)]
pub struct ReadableFormatter {
    pub current_indent: usize,
    pub is_in_object_key: bool,
    pub has_value: bool,
    pub palette: Palette,
}

impl ReadableFormatter {
    pub open spec fn quote_style(&self) -> Style {
        if self.is_in_object_key {
            self.palette.object_key_quote_style
        } else {
            self.palette.string_quote_style
        }
    }

    pub open spec fn char_style(&self) -> Style {
        if self.is_in_object_key {
            self.palette.object_key_char_style
        } else {
            self.palette.string_char_style
        }
    }

    pub open spec fn escape_style(&self) -> Style {
        if self.is_in_object_key {
            self.palette.object_key_escape_style
        } else {
            self.palette.string_escape_style
        }
    }

    /// The text that closes a container at the current depth: a line break
    /// and indentation when it has members, then the bracket.
    pub open spec fn closing(&self, bracket_style: Style, bracket: Seq<char>) -> Seq<char> {
        (if self.has_value {
            "\n"@ + spaces(self.current_indent as nat)
        } else {
            Seq::empty()
        }) + painted(bracket_style, bracket)
    }

    /// The text before a member: a comma unless it is the first, then a
    /// line break and indentation.
    pub open spec fn separator(&self, comma_style: Style, first: bool) -> Seq<char> {
        (if first {
            Seq::empty()
        } else {
            painted(comma_style, ","@)
        }) + "\n"@ + spaces(self.current_indent as nat)
    }

    /// A layout at the top level, with the default palette.
    pub fn new() -> (r: ReadableFormatter)
        ensures
            r.current_indent == 0,
            !r.is_in_object_key,
            !r.has_value,
            r.palette == default_palette(),
    {
        ReadableFormatter {
            current_indent: 0,
            is_in_object_key: false,
            has_value: false,
            palette: Palette::new(),
        }
    }

    fn put(out: &mut String, s: &Style, text: &str)
        ensures
            final(out)@ == old(out)@ + painted(*s, text@),
    {
        let p = paint(s, text);
        out.append(p.as_str());
    }

    /// Writes `null`.
    pub fn write_null(&self, out: &mut String)
        ensures
            final(out)@ == old(out)@ + painted(self.palette.null_style, "null"@),
    {
        Self::put(out, &self.palette.null_style, "null");
    }

    /// Writes `true` or `false`.
    pub fn write_bool(&self, out: &mut String, value: bool)
        ensures
            final(out)@ == old(out)@ + if value {
                painted(self.palette.true_style, "true"@)
            } else {
                painted(self.palette.false_style, "false"@)
            },
    {
        if value {
            Self::put(out, &self.palette.true_style, "true");
        } else {
            Self::put(out, &self.palette.false_style, "false");
        }
    }

    /// Writes an integer in decimal, like `-123`.
    pub fn write_integer(&self, out: &mut String, value: i128)
        ensures
            final(out)@ == old(out)@ + painted(self.palette.number_style, decimal(value as int)),
    {
        let digits = integer_text(value);
        Self::put(out, &self.palette.number_style, digits.as_str());
    }

    pub fn write_i8(&self, out: &mut String, value: i8)
        ensures
            final(out)@ == old(out)@ + painted(self.palette.number_style, decimal(value as int)),
    {
        self.write_integer(out, value as i128)
    }

    pub fn write_i16(&self, out: &mut String, value: i16)
        ensures
            final(out)@ == old(out)@ + painted(self.palette.number_style, decimal(value as int)),
    {
        self.write_integer(out, value as i128)
    }

    pub fn write_i32(&self, out: &mut String, value: i32)
        ensures
            final(out)@ == old(out)@ + painted(self.palette.number_style, decimal(value as int)),
    {
        self.write_integer(out, value as i128)
    }

    pub fn write_i64(&self, out: &mut String, value: i64)
        ensures
            final(out)@ == old(out)@ + painted(self.palette.number_style, decimal(value as int)),
    {
        self.write_integer(out, value as i128)
    }

    pub fn write_u8(&self, out: &mut String, value: u8)
        ensures
            final(out)@ == old(out)@ + painted(self.palette.number_style, decimal(value as int)),
    {
        self.write_integer(out, value as i128)
    }

    pub fn write_u16(&self, out: &mut String, value: u16)
        ensures
            final(out)@ == old(out)@ + painted(self.palette.number_style, decimal(value as int)),
    {
        self.write_integer(out, value as i128)
    }

    pub fn write_u32(&self, out: &mut String, value: u32)
        ensures
            final(out)@ == old(out)@ + painted(self.palette.number_style, decimal(value as int)),
    {
        self.write_integer(out, value as i128)
    }

    pub fn write_u64(&self, out: &mut String, value: u64)
        ensures
            final(out)@ == old(out)@ + painted(self.palette.number_style, decimal(value as int)),
    {
        self.write_integer(out, value as i128)
    }

    /// Writes a floating point number, given as its shortest round-trip
    /// decimal text, like `-31.26e+12`.
    pub fn write_floating(&self, out: &mut String, text: &str)
        ensures
            final(out)@ == old(out)@ + painted(self.palette.number_style, text@),
    {
        Self::put(out, &self.palette.number_style, text);
    }

    /// Writes the opening quote of a string.
    pub fn begin_string(&self, out: &mut String)
        ensures
            final(out)@ == old(out)@ + painted(self.quote_style(), "\""@),
    {
        if self.is_in_object_key {
            Self::put(out, &self.palette.object_key_quote_style, "\"");
        } else {
            Self::put(out, &self.palette.string_quote_style, "\"");
        }
    }

    /// Writes the closing quote of a string.
    pub fn end_string(&self, out: &mut String)
        ensures
            final(out)@ == old(out)@ + painted(self.quote_style(), "\""@),
    {
        self.begin_string(out)
    }

    /// Writes a part of a string that needs no escaping.
    pub fn write_string_fragment(&self, out: &mut String, fragment: &str)
        ensures
            final(out)@ == old(out)@ + painted(self.char_style(), fragment@),
    {
        if self.is_in_object_key {
            Self::put(out, &self.palette.object_key_char_style, fragment);
        } else {
            Self::put(out, &self.palette.string_char_style, fragment);
        }
    }

    /// Writes an escape inside a string.
    pub fn write_char_escape(&self, out: &mut String, char_escape: CharEscape)
        ensures
            final(out)@ == old(out)@ + painted(self.escape_style(), escape_text(char_escape)),
    {
        let s = if self.is_in_object_key {
            &self.palette.object_key_escape_style
        } else {
            &self.palette.string_escape_style
        };
        match char_escape {
            CharEscape::Quote => Self::put(out, s, "\\\""),
            CharEscape::ReverseSolidus => Self::put(out, s, "\\\\"),
            CharEscape::Solidus => Self::put(out, s, "\\/"),
            CharEscape::Backspace => Self::put(out, s, "\\b"),
            CharEscape::FormFeed => Self::put(out, s, "\\f"),
            CharEscape::LineFeed => Self::put(out, s, "\\n"),
            CharEscape::CarriageReturn => Self::put(out, s, "\\r"),
            CharEscape::Tab => Self::put(out, s, "\\t"),
            CharEscape::AsciiControl(byte) => {
                let mut text = String::from_str("\\u00");
                push_char(&mut text, hex_digit(byte / 16));
                push_char(&mut text, hex_digit(byte % 16));
                proof {
                    assert(text@ =~= "\\u00"@ + seq![hex_char((byte / 16) as int), hex_char((byte % 16) as int)]);
                }
                Self::put(out, s, text.as_str());
            },
        }
    }

    /// Opens an array: one level deeper, with no member yet.
    pub fn begin_array(&mut self, out: &mut String)
        requires
            old(self).current_indent < usize::MAX,
        ensures
            final(out)@ == old(out)@ + painted(old(self).palette.array_bracket_style, "["@),
            final(self).current_indent == old(self).current_indent + 1,
            !final(self).has_value,
            final(self).is_in_object_key == old(self).is_in_object_key,
            final(self).palette == old(self).palette,
    {
        self.current_indent = self.current_indent + 1;
        self.has_value = false;
        Self::put(out, &self.palette.array_bracket_style, "[");
    }

    /// Closes an array: one level up, on a line of its own when it had
    /// members.
    pub fn end_array(&mut self, out: &mut String)
        requires
            old(self).current_indent > 0,
        ensures
            final(self).current_indent == old(self).current_indent - 1,
            final(out)@ == old(out)@ + final(self).closing(
                old(self).palette.array_bracket_style,
                "]"@,
            ),
            final(self).has_value == old(self).has_value,
            final(self).is_in_object_key == old(self).is_in_object_key,
            final(self).palette == old(self).palette,
    {
        self.current_indent = self.current_indent - 1;
        let bracket_style = self.palette.array_bracket_style;
        self.close(out, &bracket_style, "]");
    }

    /// Starts an array member: a comma unless it is the first, then a new
    /// line at the current depth.
    pub fn begin_array_value(&self, out: &mut String, first: bool)
        ensures
            final(out)@ == old(out)@ + self.separator(self.palette.array_comma_style, first),
    {
        let comma_style = self.palette.array_comma_style;
        self.separate(out, &comma_style, first);
    }

    /// Ends an array member: the array now has one.
    pub fn end_array_value(&mut self)
        ensures
            final(self).has_value,
            final(self).current_indent == old(self).current_indent,
            final(self).is_in_object_key == old(self).is_in_object_key,
            final(self).palette == old(self).palette,
    {
        self.has_value = true;
    }

    /// Opens an object: one level deeper, with no member yet.
    pub fn begin_object(&mut self, out: &mut String)
        requires
            old(self).current_indent < usize::MAX,
        ensures
            final(out)@ == old(out)@ + painted(old(self).palette.object_brace_style, "{"@),
            final(self).current_indent == old(self).current_indent + 1,
            !final(self).has_value,
            final(self).is_in_object_key == old(self).is_in_object_key,
            final(self).palette == old(self).palette,
    {
        self.current_indent = self.current_indent + 1;
        self.has_value = false;
        Self::put(out, &self.palette.object_brace_style, "{");
    }

    /// Closes an object: one level up, on a line of its own when it had
    /// members.
    pub fn end_object(&mut self, out: &mut String)
        requires
            old(self).current_indent > 0,
        ensures
            final(self).current_indent == old(self).current_indent - 1,
            final(out)@ == old(out)@ + final(self).closing(
                old(self).palette.object_brace_style,
                "}"@,
            ),
            final(self).has_value == old(self).has_value,
            final(self).is_in_object_key == old(self).is_in_object_key,
            final(self).palette == old(self).palette,
    {
        self.current_indent = self.current_indent - 1;
        let brace_style = self.palette.object_brace_style;
        self.close(out, &brace_style, "}");
    }

    /// Starts an object member with its key: a comma unless it is the
    /// first, then a new line at the current depth; strings are keys now.
    pub fn begin_object_key(&mut self, out: &mut String, first: bool)
        ensures
            final(out)@ == old(out)@ + old(self).separator(old(self).palette.object_comma_style, first),
            final(self).is_in_object_key,
            final(self).current_indent == old(self).current_indent,
            final(self).has_value == old(self).has_value,
            final(self).palette == old(self).palette,
    {
        self.is_in_object_key = true;
        let comma_style = self.palette.object_comma_style;
        self.separate(out, &comma_style, first);
    }

    /// Ends an object key: strings are values again.
    pub fn end_object_key(&mut self)
        ensures
            !final(self).is_in_object_key,
            final(self).current_indent == old(self).current_indent,
            final(self).has_value == old(self).has_value,
            final(self).palette == old(self).palette,
    {
        self.is_in_object_key = false;
    }

    /// Writes the colon between a key and its value.
    pub fn begin_object_value(&self, out: &mut String)
        ensures
            final(out)@ == old(out)@ + painted(self.palette.object_colon_style, ": "@),
    {
        Self::put(out, &self.palette.object_colon_style, ": ");
    }

    /// Ends an object member: the object now has one.
    pub fn end_object_value(&mut self)
        ensures
            final(self).has_value,
            final(self).current_indent == old(self).current_indent,
            final(self).is_in_object_key == old(self).is_in_object_key,
            final(self).palette == old(self).palette,
    {
        self.has_value = true;
    }

    fn separate(&self, out: &mut String, comma_style: &Style, first: bool)
        ensures
            final(out)@ == old(out)@ + self.separator(*comma_style, first),
    {
        let ghost start = out@;
        if !first {
            Self::put(out, comma_style, ",");
        }
        out.append("\n");
        indent(out, self.current_indent);
        assert(out@ =~= start + self.separator(*comma_style, first));
    }

    fn close(&self, out: &mut String, bracket_style: &Style, bracket: &str)
        ensures
            final(out)@ == old(out)@ + self.closing(*bracket_style, bracket@),
    {
        if self.has_value {
            out.append("\n");
            indent(out, self.current_indent);
        }
        Self::put(out, bracket_style, bracket);
    }
}

/// A token of the readable layout whose text does not end in a line break
/// does not end in one once painted, whatever its style. Every record ends
/// with such a token (a scalar, a closing quote or a closing bracket), so a
/// record followed by one line break ends in exactly one.
pub proof fn lemma_painted_ends_without_line_break(s: Style, text: Seq<char>)
    requires
        text.len() > 0,
        text.last() != '\n',
    ensures
        painted(s, text).len() > 0,
        painted(s, text).last() != '\n',
{
    reveal_strlit("\x1B[0m");
    if is_plain(s) {
        assert(painted(s, text) =~= text);
    } else {
        let p = ansi_prefix(s) + text;
        assert(painted(s, text) =~= p + "\x1B[0m"@);
        assert(painted(s, text).last() == 'm');
    }
}

/// A closing bracket of the readable layout never ends in a line break.
pub proof fn lemma_closing_ends_without_line_break(f: ReadableFormatter, bracket_style: Style, bracket: Seq<char>)
    requires
        bracket.len() > 0,
        bracket.last() != '\n',
    ensures
        f.closing(bracket_style, bracket).last() != '\n',
{
    lemma_painted_ends_without_line_break(bracket_style, bracket);
    let head = if f.has_value {
        "\n"@ + spaces(f.current_indent as nat)
    } else {
        Seq::empty()
    };
    assert(f.closing(bracket_style, bracket) =~= head + painted(bracket_style, bracket));
}

} // verus!
