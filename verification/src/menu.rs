//! Typed, prompt-driven input menus.
//!
//! A menu is an ordered list of fields, each with a label, a declared kind,
//! an optionality and perhaps a default value. The engine walks the fields in
//! order; for each one it offers a prompt line, classifies one raw input line
//! as blank or not, parses non-blank input against the declared kind, and
//! either stores the value and moves on or stays on the field with an error
//! line. All of that is decided here; reading and printing the lines is the
//! embedding program's part.
//!
//! Floating-point machine values cannot live in this crate, so a float field
//! stores the literal text its input validation accepted; an embedder turns
//! that text into a machine float with ordinary parsing, which accepts it by
//! construction.

use vstd::prelude::*;
use crate::text::dec_int;
use crate::text::i64_dec;
use crate::text::is_blank;
use crate::text::is_float_text;
use crate::text::parse_i64;
use crate::text::spec_blank;
use crate::text::spec_float_text;
use crate::text::spec_parse_i64;
use crate::text::spec_trim;
use crate::text::spec_trim_newlines;
use crate::text::trim;
use crate::text::trim_newlines;

verus! {

/// Whether a menu field may be left blank.
#[derive(Eq, PartialEq, Structural, Clone, Copy, Debug)]
pub enum MenuOptional {
    /// The field may be skipped with blank input.
    Optional,
    /// The field must end up with a value.
    Required,
}

/// The kind of value a menu field expects.
#[derive(Eq, PartialEq, Structural, Clone, Copy, Debug)]
pub enum MenuType {
    /// Free-form text.
    Text,
    /// A signed 64-bit integer.
    Integer,
    /// A floating-point number, kept as the literal text that was accepted.
    Float,
}

/// The value a field holds: a default given at construction, or what the
/// user's input parsed to.
#[derive(Clone, Debug)]
pub enum MenuValue {
    /// The value of a text field.
    Text(String),
    /// The value of an integer field.
    Integer(i64),
    /// The value of a float field: the literal text that float validation
    /// accepted.
    Float(String),
}

impl MenuValue {
    /// The value is of the declared kind.
    pub open spec fn matches_type(self, t: MenuType) -> bool {
        match self {
            MenuValue::Text(_) => t == MenuType::Text,
            MenuValue::Integer(_) => t == MenuType::Integer,
            MenuValue::Float(_) => t == MenuType::Float,
        }
    }

    /// How the value reads in a prompt: text and float values as their text,
    /// integers in decimal.
    pub open spec fn spec_text(self) -> Seq<char> {
        match self {
            MenuValue::Text(s) => s@,
            MenuValue::Integer(i) => dec_int(i as int),
            MenuValue::Float(s) => s@,
        }
    }

    /// Render the value as the prompt shows it.
    pub fn text(&self) -> (r: String)
        ensures
            r@ == self.spec_text(),
    {
        match self {
            MenuValue::Text(s) => s.clone(),
            MenuValue::Integer(i) => i64_dec(*i),
            MenuValue::Float(s) => s.clone(),
        }
    }
}

/// One menu field: a label, the expected kind, whether blank input may skip
/// it, and the value it currently holds, if any.
#[derive(Clone, Debug)]
pub struct MenuOption(pub String, pub MenuType, pub MenuOptional, pub Option<MenuValue>);

/// Non-blank input of this text parses under the field's declared kind.
pub open spec fn set_ok(item: MenuOption, s: Seq<char>) -> bool {
    match item.1 {
        MenuType::Text => true,
        MenuType::Integer => spec_parse_i64(spec_trim(s)) is Some,
        MenuType::Float => spec_float_text(spec_trim(s)),
    }
}

/// `after` is `before` with the parse of `s` stored: text keeps the line less
/// trailing line breaks, an integer field the parsed number, a float field
/// the trimmed accepted literal.
pub open spec fn stored_value_ok(before: MenuOption, s: Seq<char>, after: MenuOption) -> bool {
    after.0 == before.0 && after.1 == before.1 && after.2 == before.2 && match before.1 {
        MenuType::Text => (after.3 matches Some(MenuValue::Text(t)) && t@ == spec_trim_newlines(s)),
        MenuType::Integer => (spec_parse_i64(spec_trim(s)) matches Some(n) && after.3 == Some(
            MenuValue::Integer(n),
        )),
        MenuType::Float => (after.3 matches Some(MenuValue::Float(t)) && t@ == spec_trim(s)),
    }
}

/// The engine's verdict on one input line for one field.
#[derive(Eq, PartialEq, Structural, Clone, Copy, Debug)]
pub enum StepOutcome {
    /// The field is resolved; the cursor moves to the next one.
    Advanced,
    /// Blank input on a required field with no value yet: stay and re-prompt.
    MissingRequired,
    /// Input that does not parse under the declared kind: stay and re-prompt.
    WrongType,
}

/// One input line moves the cursor past this field: blank input does when the
/// field is optional or already holds a value, non-blank input does when it
/// parses under the declared kind.
pub open spec fn spec_step_advances(item: MenuOption, line: Seq<char>) -> bool {
    if spec_blank(line) {
        item.2 == MenuOptional::Optional || item.3 is Some
    } else {
        set_ok(item, line)
    }
}

/// What one input line leaves the field as: unchanged on blank or rejected
/// input, the parsed value stored otherwise.
pub open spec fn spec_step_item(item: MenuOption, line: Seq<char>, after: MenuOption) -> bool {
    if spec_blank(line) || !set_ok(item, line) {
        after == item
    } else {
        stored_value_ok(item, line, after)
    }
}

impl MenuOption {
    /// The stored value, if any, is of the declared kind.
    pub open spec fn wf(self) -> bool {
        match self.3 {
            Some(v) => v.matches_type(self.1),
            None => true,
        }
    }

    fn set_string(&mut self, s: String)
        ensures
            final(self).0 == old(self).0,
            final(self).1 == old(self).1,
            final(self).2 == old(self).2,
            final(self).3 == Some(MenuValue::Text(s)),
    {
        self.3 = Some(MenuValue::Text(s));
    }

    fn set_int(&mut self, i: i64)
        ensures
            final(self).0 == old(self).0,
            final(self).1 == old(self).1,
            final(self).2 == old(self).2,
            final(self).3 == Some(MenuValue::Integer(i)),
    {
        self.3 = Some(MenuValue::Integer(i));
    }

    fn set_float(&mut self, s: String)
        ensures
            final(self).0 == old(self).0,
            final(self).1 == old(self).1,
            final(self).2 == old(self).2,
            final(self).3 == Some(MenuValue::Float(s)),
    {
        self.3 = Some(MenuValue::Float(s));
    }

    /// Take the text out of a resolved text field. Asking a field of another
    /// kind for text is a schema mismatch at the call site and is ruled out
    /// by contract rather than by a run-time failure.
    pub fn get_string(self) -> (r: Option<String>)
        requires
            self.3 matches Some(v) ==> v is Text,
        ensures
            (match self.3 {
                Some(MenuValue::Text(s)) => r == Some(s),
                _ => r is None,
            }),
    {
        match self.3 {
            Some(MenuValue::Text(s)) => Some(s),
            _ => None,
        }
    }

    /// Take the number out of a resolved integer field. Asking a field of
    /// another kind is ruled out by contract, as with [`Self::get_string`].
    pub fn get_int(self) -> (r: Option<i64>)
        requires
            self.3 matches Some(v) ==> v is Integer,
        ensures
            (match self.3 {
                Some(MenuValue::Integer(i)) => r == Some(i),
                _ => r is None,
            }),
    {
        match self.3 {
            Some(MenuValue::Integer(i)) => Some(i),
            _ => None,
        }
    }

    /// Take the accepted literal text out of a resolved float field. Asking a
    /// field of another kind is ruled out by contract, as with
    /// [`Self::get_string`].
    pub fn get_float(self) -> (r: Option<String>)
        requires
            self.3 matches Some(v) ==> v is Float,
        ensures
            (match self.3 {
                Some(MenuValue::Float(s)) => r == Some(s),
                _ => r is None,
            }),
    {
        match self.3 {
            Some(MenuValue::Float(s)) => Some(s),
            _ => None,
        }
    }

    /// Whether blank input may skip this field.
    pub fn is_optional(&self) -> (r: bool)
        ensures
            r == (self.2 == MenuOptional::Optional),
    {
        match self.2 {
            MenuOptional::Optional => true,
            MenuOptional::Required => false,
        }
    }

    /// Whether the field holds a value, default or entered.
    pub fn has_value(&self) -> (r: bool)
        ensures
            r == (self.3 is Some),
    {
        self.3.is_some()
    }

    /// Parse one raw input line under the declared kind and store the result:
    /// a text field keeps the line less trailing line breaks, numeric fields
    /// trim the line and parse it, rejecting it — and changing nothing — when
    /// it does not parse.
    pub fn set(&mut self, s: String) -> (r: Result<(), ()>)
        ensures
            (r is Ok <==> set_ok(*old(self), s@)),
            r is Ok ==> stored_value_ok(*old(self), s@, *final(self)),
            r is Ok ==> final(self).wf(),
            r is Err ==> *final(self) == *old(self),
            old(self).wf() ==> final(self).wf(),
    {
        match self.1 {
            MenuType::Text => {
                let t = trim_newlines(s.as_str());
                self.set_string(t);
                Ok(())
            }
            MenuType::Integer => {
                let t = trim(s.as_str());
                match parse_i64(t.as_str()) {
                    Some(n) => {
                        self.set_int(n);
                        Ok(())
                    }
                    None => Err(()),
                }
            }
            MenuType::Float => {
                let t = trim(s.as_str());
                if is_float_text(t.as_str()) {
                    self.set_float(t);
                    Ok(())
                } else {
                    Err(())
                }
            }
        }
    }

    /// The name of the declared kind, as the prompt shows it.
    pub fn get_type_name(&self) -> (r: &'static str)
        ensures
            r@ == spec_type_name(self.1),
    {
        match self.1 {
            MenuType::Text => "Text",
            MenuType::Integer => "Integer",
            MenuType::Float => "Float",
        }
    }

    /// Decide one input line for this field, as one turn of the menu's
    /// prompt/validate/store machine: blank input either skips the field
    /// (optional, or a value already held) or is rejected on a required,
    /// unset field; non-blank input is parsed and stored, or rejected with
    /// nothing changed.
    pub fn apply_line(&mut self, line: String) -> (r: StepOutcome)
        ensures
            final(self).0 == old(self).0,
            final(self).1 == old(self).1,
            final(self).2 == old(self).2,
            old(self).wf() ==> final(self).wf(),
            (r == StepOutcome::Advanced <==> spec_step_advances(*old(self), line@)),
            spec_step_item(*old(self), line@, *final(self)),
            (r == StepOutcome::MissingRequired <==> (spec_blank(line@) && old(self).2
                == MenuOptional::Required && old(self).3 is None)),
            spec_blank(line@) ==> *final(self) == *old(self),
            (!spec_blank(line@) && !set_ok(*old(self), line@)) ==> (r == StepOutcome::WrongType
                && *final(self) == *old(self)),
    {
        let blank = is_blank(line.as_str());
        if blank {
            if !self.is_optional() && !self.has_value() {
                StepOutcome::MissingRequired
            } else {
                StepOutcome::Advanced
            }
        } else {
            match self.set(line) {
                Ok(_) => StepOutcome::Advanced,
                Err(_) => StepOutcome::WrongType,
            }
        }
    }
}

/// The name of a field kind, as the prompt shows it.
pub open spec fn spec_type_name(t: MenuType) -> Seq<char> {
    match t {
        MenuType::Text => "Text"@,
        MenuType::Integer => "Integer"@,
        MenuType::Float => "Float"@,
    }
}

/// Text wrapped in the bold SGR code and the reset code.
pub open spec fn esc_bold(s: Seq<char>) -> Seq<char> {
    "\u{1b}[1m"@ + s + "\u{1b}[0m"@
}

/// Text wrapped in the italic SGR code and the reset code.
pub open spec fn esc_italic(s: Seq<char>) -> Seq<char> {
    "\u{1b}[3m"@ + s + "\u{1b}[0m"@
}

/// Text wrapped in the red-foreground SGR code and the reset code.
pub open spec fn esc_red(s: Seq<char>) -> Seq<char> {
    "\u{1b}[31m"@ + s + "\u{1b}[0m"@
}

/// Relies on `ansi_term::Style::paint`: a style with only bold set writes the
/// bold SGR prefix, the text, and the reset code.
#[verifier::external_body]
fn paint_bold(s: &str) -> (r: String)
    ensures
        r@ == esc_bold(s@),
{
    ansi_term::Style::new().bold().paint(s).to_string()
}

/// Relies on `ansi_term::Style::paint`: a style with only italic set writes
/// the italic SGR prefix, the text, and the reset code.
#[verifier::external_body]
fn paint_italic(s: &str) -> (r: String)
    ensures
        r@ == esc_italic(s@),
{
    ansi_term::Style::new().italic().paint(s).to_string()
}

/// Relies on `ansi_term::Colour::paint`: a plain red foreground writes the
/// red SGR prefix, the text, and the reset code.
#[verifier::external_body]
fn paint_red(s: &str) -> (r: String)
    ensures
        r@ == esc_red(s@),
{
    ansi_term::Colour::Red.paint(s).to_string()
}

/// The annotation between label and kind: the default value in quotes when
/// one is held, and whether the field is optional.
pub open spec fn spec_annotation(item: MenuOption) -> Seq<char> {
    match item.3 {
        Some(v) => (if item.2 == MenuOptional::Optional {
            "(Optional, default: \""@
        } else {
            "(default: \""@
        }) + v.spec_text() + "\") "@,
        None => if item.2 == MenuOptional::Optional {
            "(Optional) "@
        } else {
            Seq::empty()
        },
    }
}

/// The whole prompt line for one field: the label in bold, the annotation,
/// and the expected kind in italics.
pub open spec fn spec_prompt(item: MenuOption) -> Seq<char> {
    esc_bold(item.0@) + " "@ + spec_annotation(item) + "expecting "@ + esc_italic(
        spec_type_name(item.1),
    ) + ": "@
}

impl MenuOption {
    /// Render the prompt line for this field.
    pub fn prompt_text(&self) -> (r: String)
        ensures
            r@ == spec_prompt(*self),
    {
        let mut r = paint_bold(self.0.as_str());
        r.append(" ");
        match &self.3 {
            Some(v) => {
                if self.is_optional() {
                    r.append("(Optional, default: \"");
                } else {
                    r.append("(default: \"");
                }
                let vt = v.text();
                r.append(vt.as_str());
                r.append("\") ");
            }
            None => {
                if self.is_optional() {
                    r.append("(Optional) ");
                }
            }
        }
        r.append("expecting ");
        let tn = paint_italic(self.get_type_name());
        r.append(tn.as_str());
        r.append(": ");
        proof {
            assert(r@ =~= spec_prompt(*self));
        }
        r
    }
}

/// The error line shown when blank input meets a required, unset field.
pub fn required_error_line() -> (r: String)
    ensures
        r@ == esc_red("This item is not optional, please enter a value."@),
{
    paint_red("This item is not optional, please enter a value.")
}

/// The error line shown when input does not parse under the declared kind.
pub fn wrong_type_error_line() -> (r: String)
    ensures
        r@ == esc_red("You have entered the wrong type of information."@),
{
    paint_red("You have entered the wrong type of information.")
}

/// A menu that has not yet been walked: an ordered list of fields.
#[derive(Clone, Debug)]
pub struct Menu {
    /// The fields, asked in order.
    pub items: Vec<MenuOption>,
}

/// The views of the input lines, line by line.
pub open spec fn lines_views(lines: Seq<String>) -> Seq<Seq<char>> {
    lines.map_values(|s: String| s@)
}

/// How a whole menu run relates fields and input lines to its outcome. The
/// cursor starts at `i`; each input line is offered to the field under the
/// cursor, advancing it or not as [`spec_step_advances`] says and leaving the
/// field as [`spec_step_item`] says; the run ends with all fields resolved,
/// or with no outcome when the input lines run out first.
pub open spec fn resolve_rel(
    items: Seq<MenuOption>,
    i: int,
    lines: Seq<Seq<char>>,
    r: Option<Seq<MenuOption>>,
) -> bool
    decreases lines.len(),
{
    if i >= items.len() {
        r == Some(items)
    } else if lines.len() == 0 {
        r is None
    } else if spec_step_advances(items[i], lines[0]) {
        exists|after: MenuOption|
            spec_step_item(items[i], lines[0], after) && resolve_rel(
                items.update(i, after),
                i + 1,
                lines.drop_first(),
                r,
            )
    } else {
        resolve_rel(items, i, lines.drop_first(), r)
    }
}

impl Menu {
    /// Every field's stored value, if any, is of its declared kind.
    pub open spec fn wf(self) -> bool {
        forall|k: int| 0 <= k < self.items@.len() ==> (#[trigger] self.items@[k]).wf()
    }

    /// Construct a menu over the given fields, asked in the order given.
    pub fn new(i: Vec<MenuOption>) -> (m: Menu)
        ensures
            m.items == i,
    {
        Menu { items: i }
    }

    /// Walk the fields against a fixed list of input lines, one line per
    /// prompt, and return the resolved fields; when the lines run out before
    /// the last field resolves — the interactive analogue is the input stream
    /// closing — the run fails. This is the whole engine less the terminal:
    /// an interactive front end feeds it one read line at a time via
    /// [`MenuOption::apply_line`], with the same outcome.
    pub fn resolve(self, lines: Vec<String>) -> (r: Result<Vec<MenuOption>, ()>)
        ensures
            (match r {
                Ok(out) => resolve_rel(self.items@, 0, lines_views(lines@), Some(out@)),
                Err(u) => resolve_rel(self.items@, 0, lines_views(lines@), None),
            }),
            (match r {
                Ok(out) => {
                    &&& out@.len() == self.items@.len()
                    &&& forall|k: int|
                        0 <= k < out@.len() ==> (#[trigger] out@[k]).0 == self.items@[k].0
                            && out@[k].1 == self.items@[k].1 && out@[k].2 == self.items@[k].2
                    &&& self.wf() ==> forall|k: int|
                        0 <= k < out@.len() ==> (#[trigger] out@[k]).wf()
                },
                Err(u) => true,
            }),
    {
        let ghost orig = self.items@;
        let ghost lv = lines_views(lines@);
        let mut items = self.items;
        let n = items.len();
        let mut i: usize = 0;
        let mut j: usize = 0;
        proof {
            assert(lv.skip(0) =~= lv);
        }
        while i < n
            invariant
                0 <= i <= n,
                0 <= j <= lines.len(),
                n == items.len(),
                orig == self.items@,
                lv == lines_views(lines@),
                lv.len() == lines.len(),
                forall|k: int|
                    0 <= k < n ==> (#[trigger] items@[k]).0 == orig[k].0 && items@[k].1
                        == orig[k].1 && items@[k].2 == orig[k].2,
                (forall|k: int| 0 <= k < n ==> (#[trigger] orig[k]).wf()) ==> forall|k: int|
                    0 <= k < n ==> (#[trigger] items@[k]).wf(),
                forall|r: Option<Seq<MenuOption>>|
                    resolve_rel(items@, i as int, #[trigger] lv.skip(j as int), r) ==> resolve_rel(
                        orig,
                        0,
                        lv,
                        r,
                    ),
            decreases lines.len() - j,
        {
            if j == lines.len() {
                proof {
                    assert(lv.skip(j as int).len() == 0);
                    assert(resolve_rel(items@, i as int, lv.skip(j as int), None));
                }
                return Err(());
            }
            let line = lines[j].clone();
            proof {
                assert(lv[j as int] == lines@[j as int]@);
                assert(lv.skip(j as int)[0] == lv[j as int]);
                assert(lv.skip(j as int).drop_first() =~= lv.skip(j as int + 1));
            }
            let ghost items_before = items@;
            let mut item = items.remove(i);
            let ghost item_before = item;
            let out = item.apply_line(line);
            items.insert(i, item);
            proof {
                assert(items_before[i as int] == item_before);
                assert(items@ =~= items_before.update(i as int, item));
            }
            if matches!(out, StepOutcome::Advanced) {
                proof {
                    assert(spec_step_advances(item_before, lv.skip(j as int)[0]));
                    assert(spec_step_item(item_before, lv.skip(j as int)[0], item));
                    assert forall|r: Option<Seq<MenuOption>>|
                        resolve_rel(items@, i + 1, #[trigger] lv.skip(j as int + 1), r) implies resolve_rel(
                        orig,
                        0,
                        lv,
                        r,
                    ) by {
                        assert(spec_step_item(item_before, lv.skip(j as int)[0], item)
                            && resolve_rel(
                            items_before.update(i as int, item),
                            i + 1,
                            lv.skip(j as int).drop_first(),
                            r,
                        ));
                        assert(resolve_rel(items_before, i as int, lv.skip(j as int), r));
                    }
                }
                i = i + 1;
            } else {
                proof {
                    assert(!spec_step_advances(item_before, lv.skip(j as int)[0]));
                    assert(item == item_before);
                    assert(items@ =~= items_before);
                    assert forall|r: Option<Seq<MenuOption>>|
                        resolve_rel(items@, i as int, #[trigger] lv.skip(j as int + 1), r) implies resolve_rel(
                        orig,
                        0,
                        lv,
                        r,
                    ) by {
                        assert(resolve_rel(items_before, i as int, lv.skip(j as int), r));
                    }
                }
            }
            j = j + 1;
        }
        proof {
            assert(resolve_rel(items@, i as int, lv.skip(j as int), Some(items@)));
        }
        Ok(items)
    }
}

/// Law: blank input on a required field that holds no value never advances
/// the cursor — however often it is submitted, the run stays on the field.
pub proof fn lemma_blank_never_advances(item: MenuOption, line: Seq<char>)
    requires
        spec_blank(line),
        item.2 == MenuOptional::Required,
        item.3 is None,
    ensures
        !spec_step_advances(item, line),
{
}

/// Law: blank input on an optional field advances the cursor and leaves the
/// field exactly as it was — in particular a default value held before is
/// the value resolved.
pub proof fn lemma_blank_keeps_default(item: MenuOption, line: Seq<char>, after: MenuOption)
    requires
        spec_blank(line),
        item.2 == MenuOptional::Optional,
        spec_step_item(item, line, after),
    ensures
        spec_step_advances(item, line),
        after == item,
{
}

} // verus!
