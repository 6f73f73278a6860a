use vstd::prelude::*;

use crate::text::{byte_len, char_is_whitespace, is_white_space, string_push, utf8_len};
use crate::ui::confirm::strings_model;
use crate::ui::list_state::ListSelection;
use vstd::string::StringExecFns;

verus! {

/// The subtask highlight of one task column.
#[derive(Clone, Copy, PartialEq, Eq, Structural, Debug)]
pub struct TaskColumnState {
    pub state: ListSelection,
}

impl TaskColumnState {
    /// The state of a new column: first subtask highlighted.
    pub open spec fn fresh() -> TaskColumnState {
        TaskColumnState { state: ListSelection { selected: Some(0usize), offset: 0 } }
    }

    /// A column with its first subtask highlighted.
    pub fn new() -> (s: Self)
        ensures
            s == TaskColumnState::fresh(),
    {
        let mut state = ListSelection::new();
        state.select(Some(0));
        TaskColumnState { state }
    }
}

/// `s` ends inside a word (its last character is not white space).
pub open spec fn ends_in_word(s: Seq<char>) -> bool {
    s.len() > 0 && !is_white_space(s.last())
}

/// The words of `s` in order, as `str::split_whitespace` yields them: the maximal runs of
/// characters that are not white space.
pub open spec fn words(s: Seq<char>) -> Seq<Seq<char>>
    decreases s.len(),
{
    if s.len() == 0 {
        Seq::empty()
    } else {
        let c = s.last();
        let w = words(s.drop_last());
        if is_white_space(c) {
            w
        } else if ends_in_word(s.drop_last()) {
            w.update(w.len() - 1, w.last().push(c))
        } else {
            w.push(seq![c])
        }
    }
}

/// The text built from `ws` and the byte length of its last line: a word that does not fit
/// (with the space before it) within `width` starts a new line, others follow a space; the
/// first word starts a new line too when it does not fit.
pub open spec fn wrap_state(ws: Seq<Seq<char>>, width: int) -> (Seq<char>, int)
    decreases ws.len(),
{
    if ws.len() == 0 {
        (Seq::empty(), 0)
    } else {
        let (r, cur) = wrap_state(ws.drop_last(), width);
        let w = ws.last();
        let l = utf8_len(w) as int;
        if cur + l + 1 > width {
            (r.push('\n') + w, l)
        } else if cur > 0 {
            (r.push(' ') + w, cur + 1 + l)
        } else {
            (r + w, l)
        }
    }
}

/// `text` wrapped to lines of at most `width` bytes (a longer word gets a line of its own).
pub open spec fn wrapped(text: Seq<char>, width: int) -> Seq<char> {
    wrap_state(words(text), width).0
}

/// The words of `text` (see `words`).
fn split_words(text: &str) -> (ws: Vec<String>)
    ensures
        strings_model(ws@) == words(text@),
{
    let n = text.unicode_len();
    let mut ws: Vec<String> = Vec::new();
    let mut in_word = false;
    let mut i: usize = 0;
    while i < n
        invariant
            n == text@.len(),
            i <= n,
            strings_model(ws@) == words(text@.subrange(0, i as int)),
            in_word == ends_in_word(text@.subrange(0, i as int)),
            in_word ==> ws@.len() > 0,
        decreases n - i,
    {
        let c = text.get_char(i);
        let ghost prefix = text@.subrange(0, i as int);
        let ghost next = text@.subrange(0, i + 1);
        proof {
            assert(next.drop_last() =~= prefix);
            assert(next.last() == c);
        }
        if char_is_whitespace(c) {
            in_word = false;
        } else if in_word {
            let ghost before = strings_model(ws@);
            let mut last = ws.pop().unwrap();
            string_push(&mut last, c);
            ws.push(last);
            proof {
                assert(strings_model(ws@) =~= before.update(
                    before.len() - 1,
                    before.last().push(c),
                ));
            }
        } else {
            let ghost before = strings_model(ws@);
            let mut w = String::new();
            string_push(&mut w, c);
            ws.push(w);
            in_word = true;
            proof {
                assert(w@ =~= seq![c]);
                assert(strings_model(ws@) =~= before.push(seq![c]));
            }
        }
        i = i + 1;
    }
    proof {
        assert(text@.subrange(0, n as int) =~= text@);
    }
    ws
}

/// Wraps `text` to lines of at most `width` bytes, breaking between words (see `wrapped`);
/// runs of white space become one space or one line break.
pub fn wrap_text(text: &str, width: usize) -> (r: String)
    ensures
        r@ == wrapped(text@, width as int),
{
    let ws = split_words(text);
    let ghost wm = strings_model(ws@);
    let mut result = String::new();
    let mut cur: usize = 0;
    let mut k: usize = 0;
    while k < ws.len()
        invariant
            wm == strings_model(ws@),
            k <= ws.len(),
            (result@, cur as int) == wrap_state(wm.subrange(0, k as int), width as int),
        decreases ws.len() - k,
    {
        let w = &ws[k];
        let len = byte_len(w);
        proof {
            assert(wm.subrange(0, k + 1).drop_last() =~= wm.subrange(0, k as int));
            assert(wm.subrange(0, k + 1).last() == w@);
        }
        if cur as u128 + len as u128 + 1 > width as u128 {
            string_push(&mut result, '\n');
            cur = 0;
        } else if cur > 0 {
            string_push(&mut result, ' ');
            cur = cur + 1;
        }
        result.append(w.as_str());
        cur = cur + len;
        k = k + 1;
    }
    proof {
        assert(wm.subrange(0, ws.len() as int) =~= wm);
    }
    result
}

/// A word: not empty, and no white space in it.
pub open spec fn is_word(w: Seq<char>) -> bool {
    w.len() > 0 && forall|i: int| 0 <= i < w.len() ==> !is_white_space(#[trigger] w[i])
}

/// Everything `words` yields is a word.
proof fn lemma_words_are_words(s: Seq<char>)
    ensures
        forall|k: int| 0 <= k < words(s).len() ==> is_word(#[trigger] words(s)[k]),
        ends_in_word(s) ==> words(s).len() > 0,
    decreases s.len(),
{
    if s.len() > 0 {
        lemma_words_are_words(s.drop_last());
        let w = words(s.drop_last());
        let c = s.last();
        if !is_white_space(c) && ends_in_word(s.drop_last()) {
            let last = w.last().push(c);
            assert(w.len() > 0);
            assert(is_word(w[w.len() - 1]));
            assert forall|i: int| 0 <= i < last.len() implies !is_white_space(#[trigger] last[i]) by {
                if i < w.last().len() {
                    assert(last[i] == w.last()[i]);
                }
            }
            assert forall|k: int| 0 <= k < words(s).len() implies is_word(#[trigger] words(s)[k]) by {
                if k < w.len() - 1 {
                    assert(words(s)[k] == w[k]);
                }
            }
        } else if !is_white_space(c) {
            assert(is_word(seq![c]));
            assert forall|k: int| 0 <= k < words(s).len() implies is_word(#[trigger] words(s)[k]) by {
                if k < w.len() {
                    assert(words(s)[k] == w[k]);
                }
            }
        }
    }
}

/// A word after text that ends a word (or nothing) becomes one more word.
proof fn lemma_words_then_word(x: Seq<char>, w: Seq<char>)
    requires
        !ends_in_word(x),
        is_word(w),
    ensures
        words(x + w) == words(x).push(w),
    decreases w.len(),
{
    let c = w.last();
    let w0 = w.drop_last();
    assert((x + w).drop_last() =~= x + w0);
    assert((x + w).last() == c);
    if w0.len() == 0 {
        assert(x + w0 =~= x);
        assert(w =~= seq![c]);
    } else {
        assert(is_word(w0)) by {
            assert forall|i: int| 0 <= i < w0.len() implies !is_white_space(#[trigger] w0[i]) by {
                assert(w0[i] == w[i]);
            }
        }
        lemma_words_then_word(x, w0);
        assert((x + w0).last() == w0.last());
        assert(w0.push(c) =~= w);
        assert(words(x).push(w0).update(words(x).len() as int, w0.push(c)) =~= words(x).push(w));
    }
}

/// A non-empty text has a non-empty encoding.
proof fn lemma_utf8_len_positive(w: Seq<char>)
    requires
        w.len() > 0,
    ensures
        utf8_len(w) > 0,
{
    assert(vstd::utf8::encode_utf8(w) == vstd::utf8::encode_scalar(w[0] as u32)
        + vstd::utf8::encode_utf8(w.drop_first()));
}

/// Wrapping a list of words yields a text with exactly those words; its last line is not
/// empty once a word went in.
proof fn lemma_wrap_state_words(ws: Seq<Seq<char>>, width: int)
    requires
        forall|k: int| 0 <= k < ws.len() ==> is_word(#[trigger] ws[k]),
    ensures
        words(wrap_state(ws, width).0) == ws,
        ws.len() > 0 ==> wrap_state(ws, width).1 > 0,
        ws.len() == 0 ==> wrap_state(ws, width).0.len() == 0,
    decreases ws.len(),
{
    if ws.len() > 0 {
        let init = ws.drop_last();
        assert forall|k: int| 0 <= k < init.len() implies is_word(#[trigger] init[k]) by {
            assert(init[k] == ws[k]);
        }
        lemma_wrap_state_words(init, width);
        let (r, cur) = wrap_state(init, width);
        let w = ws.last();
        assert(is_word(w));
        lemma_utf8_len_positive(w);
        if cur + utf8_len(w) + 1 > width {
            assert(r.push('\n').drop_last() =~= r);
            lemma_words_then_word(r.push('\n'), w);
        } else if cur > 0 {
            assert(r.push(' ').drop_last() =~= r);
            lemma_words_then_word(r.push(' '), w);
        } else {
            assert(r =~= Seq::<char>::empty());
            lemma_words_then_word(r, w);
        }
        assert(init.push(w) =~= ws);
    } else {
        assert(words(Seq::<char>::empty()) =~= Seq::<Seq<char>>::empty());
    }
}

/// Wrapping changes only the white space: the wrapped text has exactly the words of the text.
pub proof fn law_wrapping_keeps_words(text: Seq<char>, width: int)
    ensures
        words(wrapped(text, width)) == words(text),
{
    lemma_words_are_words(text);
    lemma_wrap_state_words(words(text), width);
}

} // verus!
