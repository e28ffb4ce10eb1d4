//! Prefix and suffix content: templates that are rendered with the table name
//! and copied around the generated statements.

use vstd::prelude::*;
use crate::error::{agrees, ConvertError};
use crate::text::to_chars;

verus! {

/// A character that trimming removes: one with the Unicode property
/// `White_Space`.
pub open spec fn is_space(c: char) -> bool {
    ||| ('\t' <= c && c <= '\r')
    ||| c == ' '
    ||| c == '\u{85}'
    ||| c == '\u{a0}'
    ||| c == '\u{1680}'
    ||| ('\u{2000}' <= c && c <= '\u{200a}')
    ||| c == '\u{2028}'
    ||| c == '\u{2029}'
    ||| c == '\u{202f}'
    ||| c == '\u{205f}'
    ||| c == '\u{3000}'
}

/// The first place at or after `from` that holds no space.
pub open spec fn skip_spaces(t: Seq<char>, from: int) -> int
    decreases t.len() - from,
{
    if 0 <= from < t.len() && is_space(t[from]) {
        skip_spaces(t, from + 1)
    } else {
        from
    }
}

/// The place after spaces, at most one `-`, and more spaces, from `from` on.
pub open spec fn skip_dash(t: Seq<char>, from: int) -> int {
    let p = skip_spaces(t, from);
    if 0 <= p < t.len() && t[p] == '-' {
        skip_spaces(t, p + 1)
    } else {
        p
    }
}

/// A brace that can open a tag stands at `i`: one that no backslash escapes.
pub open spec fn opens_at(t: Seq<char>, i: int) -> bool {
    0 <= i < t.len() && t[i] == '{' && (i == 0 || t[i - 1] != '\\')
}

/// The comment tag `{#}`, too short to hold its own delimiters, stands at `i`.
pub open spec fn empty_comment_at(t: Seq<char>, i: int) -> bool {
    opens_at(t, i) && i + 2 < t.len() && t[i + 1] == '#' && t[i + 2] == '}'
}

/// After a `not` that ends just before `q`, nothing stands that the renderer
/// can take for the operand: a character outside ASCII follows at once, or
/// the tag is closed after spaces and at most one `-`.
pub open spec fn lacks_operand(t: Seq<char>, q: int) -> bool {
    ||| 0 <= q < t.len() && t[q] > '\x7f'
    ||| {
        let r = skip_dash(t, q);
        0 <= r && r + 1 < t.len() && t[r] == '}' && t[r + 1] == '}'
    }
}

/// A block tag opens at `i` whose first word is `if`, whose second is `not`,
/// and which gives the `not` no operand.
pub open spec fn bare_negation_at(t: Seq<char>, i: int) -> bool {
    &&& opens_at(t, i)
    &&& i + 1 < t.len()
    &&& t[i + 1] == '{'
    &&& {
        let p = skip_dash(t, i + 2);
        &&& p + 1 < t.len()
        &&& t[p] == 'i'
        &&& t[p + 1] == 'f'
        &&& {
            let n = skip_spaces(t, p + 2);
            &&& n > p + 2
            &&& n + 2 < t.len()
            &&& t[n] == 'n'
            &&& t[n + 1] == 'o'
            &&& t[n + 2] == 't'
            &&& lacks_operand(t, n + 3)
        }
    }
}

/// The template can be handed to the renderer.
///
/// Three shapes are kept away from it, each of which it cannot cope with: the
/// comment `{#}`; a block `if not` without an operand; and a backslash as the
/// last character. A brace counts as the opening of a tag wherever no
/// backslash stands before it, also inside another tag.
pub open spec fn is_safe_template(t: Seq<char>) -> bool {
    &&& forall|i: int| !#[trigger] empty_comment_at(t, i)
    &&& forall|i: int| !#[trigger] bare_negation_at(t, i)
    &&& (t.len() > 0 ==> t.last() != '\\')
}

/// What the renderer makes of the template `text`, registered under `name`,
/// when the context holds the one entry `key: value` and values are written
/// as they are; `None` where it reports an error.
pub uninterp spec fn rendered(
    name: Seq<char>,
    text: Seq<char>,
    key: Seq<char>,
    value: Seq<char>,
) -> Option<Seq<char>>;

/// The framing text that a rendering result gives: the rendered text and a
/// line break, or a configuration error where rendering failed.
pub open spec fn framed(rendering: Option<Seq<char>>) -> Result<Seq<char>, ConvertError> {
    match rendering {
        Some(text) => Ok(text + "\n"@),
        None => Err(ConvertError::InvalidConfiguration),
    }
}

/// The framing text for the content of a prefix or suffix file, `None` where
/// there is no such file.
pub open spec fn framing_of(content: Option<Seq<char>>, table: Seq<char>) -> Result<
    Seq<char>,
    ConvertError,
> {
    match content {
        None => Ok(Seq::empty()),
        Some(text) => if is_safe_template(text) {
            framed(rendered("append"@, text, "table"@, table))
        } else {
            Err(ConvertError::InvalidConfiguration)
        },
    }
}

/// Trusted: `tinytemplate::error::Error`, the renderer's error, is carried
/// through unread.
#[verifier::external_type_specification]
#[verifier::external_body]
pub struct ExTemplateError(tinytemplate::error::Error);

/// Compiles `text` as a template named `name` and renders it, without
/// escaping, with a context of the single entry `key: value`.
///
/// Trusted: `tinytemplate::TinyTemplate::new`, `set_default_formatter` with
/// `tinytemplate::format_unescaped`, `add_template` and `render`.
/// Compiling and rendering depend on nothing but the four texts, so the
/// outcome has a name, [`rendered`]; an error of either step is the `None` of
/// that name. Nothing is claimed of what the rendered text looks like.
/// The precondition keeps away the templates on which the compiler indexes
/// past the end of a tag or into the middle of a character.
#[verifier::external_body]
fn render_template(name: &str, text: &str, key: &str, value: &str) -> (res: Result<
    String,
    tinytemplate::error::Error,
>)
    requires
        is_safe_template(text@),
    ensures
        match res {
            Ok(s) => rendered(name@, text@, key@, value@) == Some(s@),
            Err(_) => rendered(name@, text@, key@, value@) is None,
        },
{
    let mut templates = tinytemplate::TinyTemplate::new();
    templates.set_default_formatter(&tinytemplate::format_unescaped);
    templates.add_template(name, text)?;
    let mut context = std::collections::HashMap::new();
    context.insert(key, value);
    templates.render(name, &context)
}

/// Whether trimming removes `c`.
pub fn is_white_space(c: char) -> (res: bool)
    ensures
        res == is_space(c),
{
    (c >= '\t' && c <= '\r') || c == ' ' || c == '\u{85}' || c == '\u{a0}' || c == '\u{1680}' || (c
        >= '\u{2000}' && c <= '\u{200a}') || c == '\u{2028}' || c == '\u{2029}' || c == '\u{202f}'
        || c == '\u{205f}' || c == '\u{3000}'
}

/// The first place at or after `from` that holds no space.
fn spaces_end(v: &Vec<char>, from: usize) -> (end: usize)
    requires
        from <= v.len(),
    ensures
        from <= end <= v.len(),
        end == skip_spaces(v@, from as int),
{
    let mut end: usize = from;
    while end < v.len() && is_white_space(v[end])
        invariant
            from <= end <= v.len(),
            skip_spaces(v@, from as int) == skip_spaces(v@, end as int),
        decreases v.len() - end,
    {
        end += 1;
    }
    end
}

/// The place after spaces, at most one `-`, and more spaces.
fn dash_end(v: &Vec<char>, from: usize) -> (end: usize)
    requires
        from <= v.len(),
    ensures
        from <= end <= v.len(),
        end == skip_dash(v@, from as int),
{
    let p = spaces_end(v, from);
    if p < v.len() && v[p] == '-' {
        spaces_end(v, p + 1)
    } else {
        p
    }
}

/// Whether a brace that can open a tag stands at `i`.
fn opens(v: &Vec<char>, i: usize) -> (res: bool)
    requires
        i < v.len(),
    ensures
        res == opens_at(v@, i as int),
{
    v[i] == '{' && (i == 0 || v[i - 1] != '\\')
}

/// Whether no operand follows a `not` that ends just before `q`.
fn operand_is_missing(v: &Vec<char>, q: usize) -> (res: bool)
    requires
        q <= v.len(),
    ensures
        res == lacks_operand(v@, q as int),
{
    if q < v.len() && v[q] > '\x7f' {
        return true;
    }
    let r = dash_end(v, q);
    v.len() - r > 1 && v[r] == '}' && v[r + 1] == '}'
}

/// Whether a block `if not` without an operand opens at `i`.
fn bare_negation(v: &Vec<char>, i: usize) -> (res: bool)
    requires
        i < v.len(),
    ensures
        res == bare_negation_at(v@, i as int),
{
    let len = v.len();
    if !(opens(v, i) && len - i > 1 && v[i + 1] == '{') {
        return false;
    }
    let p = dash_end(v, i + 2);
    if !(len - p > 1 && v[p] == 'i' && v[p + 1] == 'f') {
        return false;
    }
    let n = spaces_end(v, p + 2);
    if !(n > p + 2 && len - n > 2 && v[n] == 'n' && v[n + 1] == 'o' && v[n + 2] == 't') {
        return false;
    }
    operand_is_missing(v, n + 3)
}

/// Whether the template can be handed to the renderer.
pub fn template_is_safe(text: &str) -> (res: bool)
    ensures
        res == is_safe_template(text@),
{
    let v = to_chars(text);
    let len = v.len();
    if len > 0 && v[len - 1] == '\\' {
        return false;
    }
    let mut i: usize = 0;
    while i < len
        invariant
            v@ == text@,
            len == v.len(),
            i <= len,
            forall|j: int| j < i ==> !#[trigger] empty_comment_at(v@, j),
            forall|j: int| j < i ==> !#[trigger] bare_negation_at(v@, j),
        decreases len - i,
    {
        if opens(&v, i) && len - i > 2 && v[i + 1] == '#' && v[i + 2] == '}' {
            assert(empty_comment_at(v@, i as int));
            return false;
        }
        if bare_negation(&v, i) {
            return false;
        }
        i += 1;
    }
    true
}

/// Turns the outcome of rendering into framing text.
pub fn frame(rendering: Option<String>) -> (res: Result<String, ConvertError>)
    ensures
        agrees(
            res,
            framed(
                match rendering {
                    Some(text) => Some(text@),
                    None => None,
                },
            ),
        ),
{
    match rendering {
        Some(text) => {
            let mut text = text;
            text.append("\n");
            Ok(text)
        },
        None => Err(ConvertError::InvalidConfiguration),
    }
}

/// The framing text for the content of a prefix or suffix file.
///
/// Without a file there is no framing, and that is no error. With one, the
/// content is rendered as a template in which `table` is known by the name
/// `table`, and a line break is put after it. A template that the renderer
/// rejects, or that cannot be handed to it, is a configuration error.
pub fn render_framing(content: Option<&str>, table: &str) -> (res: Result<String, ConvertError>)
    ensures
        agrees(
            res,
            framing_of(
                match content {
                    Some(text) => Some(text@),
                    None => None,
                },
                table@,
            ),
        ),
{
    match content {
        None => Ok(String::new()),
        Some(text) => {
            if !template_is_safe(text) {
                return Err(ConvertError::InvalidConfiguration);
            }
            match render_template("append", text, "table", table) {
                Ok(rendering) => frame(Some(rendering)),
                Err(_) => frame(None),
            }
        },
    }
}

} // verus!
