//! Rendering a JSON value as text: one line, no added whitespace, strings
//! escaped as the JSON grammar asks. `text_of` pins down the exact character
//! sequence, and the executable renderer is proved to produce it.

use vstd::prelude::*;

use crate::json::{models_of, entry_models_of, lemma_models_of, lemma_entry_models_of, Json,
    JsonModel};
use crate::text::{dec_of, dec_of_int, digit_char, hex_char, hex_to_char, i64_to_dec, push_char,
    push_dec_u64};
use vstd::string::StrSliceExecFns;
use vstd::string::StringExecFns;

verus! {

/// The escape of one character inside a JSON string: the two-character
/// escapes of the grammar, `\u00..` for the other control characters, and
/// the character itself otherwise.
pub open spec fn esc_char(c: char) -> Seq<char> {
    if c == '"' {
        seq!['\\', '"']
    } else if c == '\\' {
        seq!['\\', '\\']
    } else if c == '\n' {
        seq!['\\', 'n']
    } else if c == '\r' {
        seq!['\\', 'r']
    } else if c == '\t' {
        seq!['\\', 't']
    } else if (c as u32) < 32 {
        seq!['\\', 'u', '0', '0', hex_char((c as u32 / 16) as int), hex_char((c as u32 % 16) as int)]
    } else {
        seq![c]
    }
}

/// The escapes of the first `i` characters of `s`, in order.
pub open spec fn esc_prefix(s: Seq<char>, i: int) -> Seq<char>
    decreases i,
{
    if i <= 0 {
        Seq::<char>::empty()
    } else {
        esc_prefix(s, i - 1) + esc_char(s[i - 1])
    }
}

/// The text of a JSON string: the escaped characters between quotes.
pub open spec fn quoted(s: Seq<char>) -> Seq<char> {
    seq!['"'] + esc_prefix(s, s.len() as int) + seq!['"']
}

/// The text of a JSON value.
pub open spec fn text_of(m: JsonModel) -> Seq<char>
    decreases m, 0int,
{
    match m {
        JsonModel::Null => seq!['n', 'u', 'l', 'l'],
        JsonModel::Bool(b) => if b {
            seq!['t', 'r', 'u', 'e']
        } else {
            seq!['f', 'a', 'l', 's', 'e']
        },
        JsonModel::Int(n) => dec_of_int(n as int),
        JsonModel::UInt(n) => dec_of(n as nat),
        JsonModel::NumText(t) => t,
        JsonModel::Str(s) => quoted(s),
        JsonModel::Arr(items) => seq!['['] + arr_items_text(items, items.len() as int) + seq![']'],
        JsonModel::Obj(es) => seq!['{'] + obj_items_text(es, es.len() as int) + seq!['}'],
    }
}

/// The text of the first `i` elements of an array, joined by commas.
pub open spec fn arr_items_text(items: Seq<JsonModel>, i: int) -> Seq<char>
    decreases items, i,
{
    if i <= 0 || i > items.len() {
        Seq::<char>::empty()
    } else if i == 1 {
        text_of(items[0])
    } else {
        arr_items_text(items, i - 1) + seq![','] + text_of(items[i - 1])
    }
}

/// The text of the first `i` members of an object, `"key":value` joined by
/// commas.
pub open spec fn obj_items_text(es: Seq<(Seq<char>, JsonModel)>, i: int) -> Seq<char>
    decreases es, i,
{
    if i <= 0 || i > es.len() {
        Seq::<char>::empty()
    } else if i == 1 {
        quoted(es[0].0) + seq![':'] + text_of(es[0].1)
    } else {
        obj_items_text(es, i - 1) + seq![','] + quoted(es[i - 1].0) + seq![':'] + text_of(
            es[i - 1].1,
        )
    }
}

fn append_escaped_char(out: &mut String, c: char)
    ensures
        final(out)@ == old(out)@ + esc_char(c),
{
    if c == '"' {
        push_char(out, '\\');
        push_char(out, '"');
    } else if c == '\\' {
        push_char(out, '\\');
        push_char(out, '\\');
    } else if c == '\n' {
        push_char(out, '\\');
        push_char(out, 'n');
    } else if c == '\r' {
        push_char(out, '\\');
        push_char(out, 'r');
    } else if c == '\t' {
        push_char(out, '\\');
        push_char(out, 't');
    } else if (c as u32) < 32 {
        push_char(out, '\\');
        push_char(out, 'u');
        push_char(out, '0');
        push_char(out, '0');
        push_char(out, hex_to_char((c as u32) / 16));
        push_char(out, hex_to_char((c as u32) % 16));
    } else {
        push_char(out, c);
    }
    proof {
        assert(final(out)@ =~= old(out)@ + esc_char(c));
    }
}

/// Appends `s` as a JSON string: quotes around the escaped characters.
pub fn append_quoted(out: &mut String, s: &str)
    ensures
        final(out)@ == old(out)@ + quoted(s@),
{
    push_char(out, '"');
    let n = s.unicode_len();
    for i in 0..n
        invariant
            n == s@.len(),
            out@ == old(out)@ + seq!['"'] + esc_prefix(s@, i as int),
    {
        let c = s.get_char(i);
        append_escaped_char(out, c);
    }
    push_char(out, '"');
    proof {
        assert(final(out)@ =~= old(out)@ + quoted(s@));
    }
}

/// Appends the text of `j`.
pub fn append_json(out: &mut String, j: &Json)
    ensures
        final(out)@ == old(out)@ + text_of(j@),
    decreases j@,
{
    match j {
        Json::Null => {
            out.append("null");
            proof {
                reveal_strlit("null");
                assert(final(out)@ =~= old(out)@ + text_of(j@));
            }
        },
        Json::Bool(b) => {
            if *b {
                out.append("true");
                proof {
                    reveal_strlit("true");
                    assert(final(out)@ =~= old(out)@ + text_of(j@));
                }
            } else {
                out.append("false");
                proof {
                    reveal_strlit("false");
                    assert(final(out)@ =~= old(out)@ + text_of(j@));
                }
            }
        },
        Json::Int(n) => {
            let t = i64_to_dec(*n);
            out.append(t.as_str());
        },
        Json::UInt(n) => {
            push_dec_u64(out, *n);
        },
        Json::NumText(t) => {
            out.append(t.as_str());
        },
        Json::Str(s) => {
            append_quoted(out, s.as_str());
        },
        Json::Arr(items) => {
            let ghost ms = models_of(items@);
            proof {
                lemma_models_of(items@);
            }
            push_char(out, '[');
            let n = items.len();
            for i in 0..n
                invariant
                    n == items.len(),
                    ms == models_of(items@),
                    j@ == JsonModel::Arr(ms),
                    ms.len() == n,
                    forall|k: int| 0 <= k < n ==> ms[k] == #[trigger] items@[k]@,
                    out@ == old(out)@ + seq!['['] + arr_items_text(ms, i as int),
                decreases n - i,
            {
                if i > 0 {
                    push_char(out, ',');
                }
                proof {
                    assert(ms[i as int] == items@[i as int]@);
                    assert(j@->Arr_0 == ms);
                    assert(decreases_to!(j@ => j@->Arr_0));
                    assert(decreases_to!(ms => ms[i as int]));
                }
                append_json(out, &items[i]);
                proof {
                    if i == 0 {
                        assert(out@ =~= old(out)@ + seq!['['] + arr_items_text(ms, 1));
                    } else {
                        assert(arr_items_text(ms, i + 1 as int) == arr_items_text(ms, i as int)
                            + seq![','] + text_of(ms[i as int]));
                        assert(out@ =~= old(out)@ + seq!['['] + arr_items_text(ms, i + 1 as int));
                    }
                }
            }
            push_char(out, ']');
            proof {
                assert(final(out)@ =~= old(out)@ + text_of(j@));
            }
        },
        Json::Obj(entries) => {
            let ghost ms = entry_models_of(entries@);
            proof {
                lemma_entry_models_of(entries@);
            }
            push_char(out, '{');
            let n = entries.len();
            for i in 0..n
                invariant
                    n == entries.len(),
                    ms == entry_models_of(entries@),
                    j@ == JsonModel::Obj(ms),
                    ms.len() == n,
                    forall|k: int|
                        0 <= k < n ==> ms[k] == (#[trigger] entries@[k].0@, entries@[k].1@),
                    out@ == old(out)@ + seq!['{'] + obj_items_text(ms, i as int),
                decreases n - i,
            {
                if i > 0 {
                    push_char(out, ',');
                }
                append_quoted(out, entries[i].0.as_str());
                push_char(out, ':');
                proof {
                    assert(ms[i as int].1 == entries@[i as int].1@);
                    assert(j@->Obj_0 == ms);
                    assert(decreases_to!(j@ => j@->Obj_0));
                    assert(decreases_to!(ms => ms[i as int]));
                    assert(decreases_to!(ms[i as int] => ms[i as int].1));
                }
                append_json(out, &entries[i].1);
                proof {
                    if i == 0 {
                        assert(out@ =~= old(out)@ + seq!['{'] + obj_items_text(ms, 1));
                    } else {
                        assert(obj_items_text(ms, i + 1 as int) == obj_items_text(ms, i as int)
                            + seq![','] + quoted(ms[i as int].0) + seq![':'] + text_of(
                            ms[i as int].1,
                        ));
                        assert(out@ =~= old(out)@ + seq!['{'] + obj_items_text(ms, i + 1 as int));
                    }
                }
            }
            push_char(out, '}');
            proof {
                assert(final(out)@ =~= old(out)@ + text_of(j@));
            }
        },
    }
}

/// The text of `j`, on one line with no added whitespace.
pub fn json_to_string(j: &Json) -> (r: String)
    ensures
        r@ == text_of(j@),
{
    let mut out = String::new();
    append_json(&mut out, j);
    out
}


/// The text of a JSON value rendered with line breaks: arrays and objects
/// spread one element per line, each level indented two spaces beyond
/// `ind`, the indentation of the enclosing line.
pub open spec fn pretty_of(m: JsonModel, ind: Seq<char>) -> Seq<char>
    decreases m, 0int,
{
    match m {
        JsonModel::Arr(items) => if items.len() == 0 {
            seq!['[', ']']
        } else {
            seq!['['] + arr_pretty(items, items.len() as int, ind) + seq!['\n'] + ind + seq![']']
        },
        JsonModel::Obj(es) => if es.len() == 0 {
            seq!['{', '}']
        } else {
            seq!['{'] + obj_pretty(es, es.len() as int, ind) + seq!['\n'] + ind + seq!['}']
        },
        _ => text_of(m),
    }
}

/// The first `i` elements of an array rendered one per line.
pub open spec fn arr_pretty(items: Seq<JsonModel>, i: int, ind: Seq<char>) -> Seq<char>
    decreases items, i,
{
    if i <= 0 || i > items.len() {
        Seq::<char>::empty()
    } else if i == 1 {
        seq!['\n'] + ind + seq![' ', ' '] + pretty_of(items[0], ind + seq![' ', ' '])
    } else {
        arr_pretty(items, i - 1, ind) + seq![','] + seq!['\n'] + ind + seq![' ', ' ']
            + pretty_of(items[i - 1], ind + seq![' ', ' '])
    }
}

/// The first `i` members of an object rendered one per line, as
/// `"key": value`.
pub open spec fn obj_pretty(es: Seq<(Seq<char>, JsonModel)>, i: int, ind: Seq<char>) -> Seq<char>
    decreases es, i,
{
    if i <= 0 || i > es.len() {
        Seq::<char>::empty()
    } else if i == 1 {
        seq!['\n'] + ind + seq![' ', ' '] + quoted(es[0].0) + seq![':', ' '] + pretty_of(
            es[0].1,
            ind + seq![' ', ' '],
        )
    } else {
        obj_pretty(es, i - 1, ind) + seq![','] + seq!['\n'] + ind + seq![' ', ' '] + quoted(
            es[i - 1].0,
        ) + seq![':', ' '] + pretty_of(es[i - 1].1, ind + seq![' ', ' '])
    }
}

fn append_pretty(out: &mut String, j: &Json, ind: &str)
    ensures
        final(out)@ == old(out)@ + pretty_of(j@, ind@),
    decreases j@,
{
    match j {
        Json::Arr(items) => {
            let ghost ms = models_of(items@);
            proof {
                lemma_models_of(items@);
            }
            if items.len() == 0 {
                out.append("[]");
                proof {
                    reveal_strlit("[]");
                    assert(final(out)@ =~= old(out)@ + pretty_of(j@, ind@));
                }
                return ;
            }
            let mut child_ind = String::from_str(ind);
            child_ind.append("  ");
            proof {
                reveal_strlit("  ");
                assert(child_ind@ =~= ind@ + seq![' ', ' ']);
            }
            push_char(out, '[');
            let n = items.len();
            for i in 0..n
                invariant
                    n == items.len(),
                    n > 0,
                    ms == models_of(items@),
                    j@ == JsonModel::Arr(ms),
                    child_ind@ == ind@ + seq![' ', ' '],
                    ms.len() == n,
                    forall|k: int| 0 <= k < n ==> ms[k] == #[trigger] items@[k]@,
                    out@ == old(out)@ + seq!['['] + arr_pretty(ms, i as int, ind@),
                decreases n - i,
            {
                if i > 0 {
                    push_char(out, ',');
                }
                push_char(out, '\n');
                out.append(ind);
                out.append("  ");
                proof {
                    reveal_strlit("  ");
                    assert(ms[i as int] == items@[i as int]@);
                    assert(decreases_to!(j@ => j@->Arr_0));
                    assert(decreases_to!(ms => ms[i as int]));
                }
                append_pretty(out, &items[i], child_ind.as_str());
                proof {
                    assert(out@ =~= old(out)@ + seq!['['] + arr_pretty(ms, i as int + 1, ind@));
                }
            }
            push_char(out, '\n');
            out.append(ind);
            push_char(out, ']');
            proof {
                assert(final(out)@ =~= old(out)@ + pretty_of(j@, ind@));
            }
        },
        Json::Obj(entries) => {
            let ghost ms = entry_models_of(entries@);
            proof {
                lemma_entry_models_of(entries@);
            }
            if entries.len() == 0 {
                out.append("{}");
                proof {
                    reveal_strlit("{}");
                    assert(final(out)@ =~= old(out)@ + pretty_of(j@, ind@));
                }
                return ;
            }
            let mut child_ind = String::from_str(ind);
            child_ind.append("  ");
            proof {
                reveal_strlit("  ");
                assert(child_ind@ =~= ind@ + seq![' ', ' ']);
            }
            push_char(out, '{');
            let n = entries.len();
            for i in 0..n
                invariant
                    n == entries.len(),
                    n > 0,
                    ms == entry_models_of(entries@),
                    j@ == JsonModel::Obj(ms),
                    child_ind@ == ind@ + seq![' ', ' '],
                    ms.len() == n,
                    forall|k: int|
                        0 <= k < n ==> ms[k] == (#[trigger] entries@[k].0@, entries@[k].1@),
                    out@ == old(out)@ + seq!['{'] + obj_pretty(ms, i as int, ind@),
                decreases n - i,
            {
                if i > 0 {
                    push_char(out, ',');
                }
                push_char(out, '\n');
                out.append(ind);
                out.append("  ");
                proof {
                    reveal_strlit("  ");
                }
                append_quoted(out, entries[i].0.as_str());
                push_char(out, ':');
                push_char(out, ' ');
                proof {
                    assert(ms[i as int] == (entries@[i as int].0@, entries@[i as int].1@));
                    assert(decreases_to!(j@ => j@->Obj_0));
                    assert(decreases_to!(ms => ms[i as int]));
                    assert(decreases_to!(ms[i as int] => ms[i as int].1));
                }
                append_pretty(out, &entries[i].1, child_ind.as_str());
                proof {
                    assert(out@ =~= old(out)@ + seq!['{'] + obj_pretty(ms, i as int + 1, ind@));
                }
            }
            push_char(out, '\n');
            out.append(ind);
            push_char(out, '}');
            proof {
                assert(final(out)@ =~= old(out)@ + pretty_of(j@, ind@));
            }
        },
        _ => {
            append_json(out, j);
            proof {
                assert(final(out)@ =~= old(out)@ + pretty_of(j@, ind@));
            }
        },
    }
}

/// The text of a JSON value as a reader would lay it out, starting at the
/// left margin.
pub open spec fn pretty_text(m: JsonModel) -> Seq<char> {
    pretty_of(m, Seq::<char>::empty())
}

/// The text of `j`, spread over lines with two-space indentation.
pub fn json_to_pretty_string(j: &Json) -> (r: String)
    ensures
        r@ == pretty_text(j@),
{
    let mut out = String::new();
    append_pretty(&mut out, j, "");
    proof {
        reveal_strlit("");
        assert(""@ =~= Seq::<char>::empty());
    }
    out
}

} // verus!
