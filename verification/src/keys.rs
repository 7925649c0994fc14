use vstd::prelude::*;
use vstd::string::*;
use crate::error::KhoraError;
use crate::text::{
    char_is_alpha, char_is_digit, char_lower, char_upper, chars_are, chars_of, debug_str,
    debug_text, is_alpha, is_digit, lower, lower_chars, lower_char, nonempty, push_char,
    split_chars, split_from, split_on, string_from, trim, trim_chars, upper_char, views,
};

verus! {

/// The non-empty, trimmed `+`-separated segments of a key combo.
pub open spec fn combo_segments(combo: Seq<char>) -> Seq<Seq<char>> {
    nonempty(split_on(combo, '+').map_values(|p: Seq<char>| trim(p)))
}

/// The CDP modifier bitfield for a set of flags (Alt=1, Ctrl=2, Meta=4, Shift=8).
pub open spec fn mask_of(alt: bool, ctrl: bool, meta: bool, shift: bool) -> i64 {
    ((if alt {
        1i64
    } else {
        0i64
    }) + (if ctrl {
        2i64
    } else {
        0i64
    }) + (if meta {
        4i64
    } else {
        0i64
    }) + (if shift {
        8i64
    } else {
        0i64
    })) as i64
}

/// Which modifier a segment names, compared without regard to ASCII case:
/// 0 Alt (`alt`, `option`), 1 Ctrl (`ctrl`, `control`), 2 Meta (`cmd`,
/// `command`, `meta`), 3 Shift (`shift`).
pub open spec fn modifier_index(name: Seq<char>) -> Option<int> {
    let l = lower(name);
    if l == "alt"@ || l == "option"@ {
        Some(0)
    } else if l == "ctrl"@ || l == "control"@ {
        Some(1)
    } else if l == "cmd"@ || l == "command"@ || l == "meta"@ {
        Some(2)
    } else if l == "shift"@ {
        Some(3)
    } else {
        None
    }
}

/// The flags that a list of modifier names turns on, or the lower-cased text
/// of the first name that is no modifier.
pub open spec fn modifier_flags(names: Seq<Seq<char>>) -> Result<(bool, bool, bool, bool), Seq<char>>
    decreases names.len(),
{
    if names.len() == 0 {
        Ok((false, false, false, false))
    } else {
        match modifier_flags(names.drop_last()) {
            Err(e) => Err(e),
            Ok(f) => match modifier_index(names.last()) {
                None => Err(lower(names.last())),
                Some(k) => Ok(
                    (f.0 || k == 0, f.1 || k == 1, f.2 || k == 2, f.3 || k == 3),
                ),
            },
        }
    }
}

/// What a key combo parses to: the modifier bitfield and the key's name (the
/// last segment), or the message of the `InvalidKeyCombo` error.
pub open spec fn parse_key_combo_spec(combo: Seq<char>) -> Result<(i64, Seq<char>), Seq<char>> {
    let segs = combo_segments(combo);
    if segs.len() == 0 {
        Err("empty combo: "@ + debug_text(combo))
    } else {
        match modifier_flags(segs.drop_last()) {
            Err(name) => Err("unknown modifier "@ + debug_text(name) + " in "@ + debug_text(combo)),
            Ok(f) => Ok((mask_of(f.0, f.1, f.2, f.3), segs.last())),
        }
    }
}

/// A named (multi-character) key: its CDP `key`, `code` and Windows
/// virtual-key code, looked up by the lower-cased name.
pub open spec fn named_key(l: Seq<char>) -> Option<(Seq<char>, Seq<char>, i64)> {
    if l == "enter"@ || l == "return"@ {
        Some(("Enter"@, "Enter"@, 13))
    } else if l == "escape"@ || l == "esc"@ {
        Some(("Escape"@, "Escape"@, 27))
    } else if l == "tab"@ {
        Some(("Tab"@, "Tab"@, 9))
    } else if l == "backspace"@ {
        Some(("Backspace"@, "Backspace"@, 8))
    } else if l == "delete"@ || l == "del"@ {
        Some(("Delete"@, "Delete"@, 46))
    } else if l == "space"@ {
        Some((" "@, "Space"@, 32))
    } else if l == "home"@ {
        Some(("Home"@, "Home"@, 36))
    } else if l == "end"@ {
        Some(("End"@, "End"@, 35))
    } else if l == "pageup"@ {
        Some(("PageUp"@, "PageUp"@, 33))
    } else if l == "pagedown"@ {
        Some(("PageDown"@, "PageDown"@, 34))
    } else if l == "arrowup"@ || l == "up"@ {
        Some(("ArrowUp"@, "ArrowUp"@, 38))
    } else if l == "arrowdown"@ || l == "down"@ {
        Some(("ArrowDown"@, "ArrowDown"@, 40))
    } else if l == "arrowleft"@ || l == "left"@ {
        Some(("ArrowLeft"@, "ArrowLeft"@, 37))
    } else if l == "arrowright"@ || l == "right"@ {
        Some(("ArrowRight"@, "ArrowRight"@, 39))
    } else {
        None
    }
}

/// The CDP `key`, `code` and Windows virtual-key code for a key name: a single
/// ASCII letter (key lower-case, code `Key` + upper-case letter, code point of
/// the upper-case letter), a single digit (`Digit` + digit), or a named key.
pub open spec fn key_info_spec(name: Seq<char>) -> Option<(Seq<char>, Seq<char>, i64)> {
    if name.len() == 1 && is_alpha(name[0]) {
        let c = name[0];
        Some((seq![lower_char(c)], "Key"@ + seq![upper_char(c)], (upper_char(c) as u32) as i64))
    } else if name.len() == 1 && is_digit(name[0]) {
        let c = name[0];
        Some((seq![c], "Digit"@ + seq![c], (c as u32) as i64))
    } else {
        named_key(lower(name))
    }
}

/// The key event a combo stands for, as (modifiers, key, code, virtual key
/// code), or the message of the `InvalidKeyCombo` error. With Shift held a
/// letter key reports its upper-case `key`; `code` and the key code stay.
pub open spec fn key_event_spec(combo: Seq<char>) -> Result<(i64, Seq<char>, Seq<char>, i64), Seq<char>> {
    match parse_key_combo_spec(combo) {
        Err(m) => Err(m),
        Ok((mods, name)) => match key_info_spec(name) {
            None => Err("unsupported key "@ + debug_text(name) + " in "@ + debug_text(combo)),
            Some((key, code, vk)) => {
                let shifted = mods >= 8;
                let k = if shifted && key.len() == 1 && is_alpha(key[0]) {
                    seq![upper_char(key[0])]
                } else {
                    key
                };
                Ok((mods, k, code, vk))
            },
        },
    }
}

/// One key press to dispatch: rawKeyDown then keyUp, both with these fields.
#[derive(Debug)]
pub struct KeyEvent {
    pub modifiers: i64,
    pub key: String,
    pub code: String,
    pub virtual_key: i64,
}

/// The trimmed, non-empty `+`-separated segments of `combo`.
fn segments(combo: &Vec<char>) -> (r: Vec<Vec<char>>)
    ensures
        views(r@) == combo_segments(combo@),
{
    let pieces = split_chars(combo, '+');
    let ghost trimmed = split_on(combo@, '+').map_values(|p: Seq<char>| trim(p));
    let mut r: Vec<Vec<char>> = Vec::new();
    let mut i: usize = 0;
    assert(trimmed.take(0) =~= Seq::<Seq<char>>::empty());
    while i < pieces.len()
        invariant
            i <= pieces@.len(),
            views(pieces@) == split_on(combo@, '+'),
            trimmed == split_on(combo@, '+').map_values(|p: Seq<char>| trim(p)),
            views(r@) == nonempty(trimmed.take(i as int)),
        decreases pieces.len() - i,
    {
        let t = trim_chars(&pieces[i]);
        assert(views(pieces@)[i as int] == pieces@[i as int]@);
        assert(trimmed[i as int] == t@);
        assert(trimmed.take(i + 1).drop_last() =~= trimmed.take(i as int));
        assert(trimmed.take(i + 1).last() == t@);
        if t.len() > 0 {
            let ghost before = r@;
            r.push(t);
            assert(views(r@) =~= views(before).push(t@));
        }
        i = i + 1;
    }
    assert(trimmed.take(i as int) =~= trimmed);
    r
}

/// Which modifier a segment names (see `modifier_index`).
fn modifier_of(name: &Vec<char>) -> (r: Option<u8>)
    ensures
        match r {
            Some(k) => modifier_index(name@) == Some(k as int),
            None => modifier_index(name@) is None,
        },
{
    let l = lower_chars(name);
    if chars_are(&l, "alt") || chars_are(&l, "option") {
        Some(0)
    } else if chars_are(&l, "ctrl") || chars_are(&l, "control") {
        Some(1)
    } else if chars_are(&l, "cmd") || chars_are(&l, "command") || chars_are(&l, "meta") {
        Some(2)
    } else if chars_are(&l, "shift") {
        Some(3)
    } else {
        None
    }
}

/// Splits a `+`-separated key combo (`"Cmd+Shift+D"`) into the CDP modifier
/// bitfield and the trailing key name. Segments are trimmed and empty ones
/// dropped; modifier names are matched without regard to ASCII case.
pub fn parse_key_combo(combo: &str) -> (r: Result<(i64, String), KhoraError>)
    ensures
        match r {
            Ok((mods, name)) => parse_key_combo_spec(combo@) == Ok::<(i64, Seq<char>), Seq<char>>(
                (mods, name@),
            ),
            Err(e) => e matches KhoraError::InvalidKeyCombo(m) && parse_key_combo_spec(combo@)
                == Err::<(i64, Seq<char>), Seq<char>>(m@),
        },
{
    let v = chars_of(combo);
    let segs = segments(&v);
    if segs.len() == 0 {
        let mut m = String::from_str("empty combo: ");
        m.append(debug_str(combo).as_str());
        return Err(KhoraError::InvalidKeyCombo(m));
    }
    let last = segs.len() - 1;
    let ghost names = views(segs@).drop_last();
    let mut alt = false;
    let mut ctrl = false;
    let mut meta = false;
    let mut shift = false;
    let mut i: usize = 0;
    assert(names.take(0) =~= Seq::<Seq<char>>::empty());
    while i < last
        invariant
            last == segs@.len() - 1,
            i <= last,
            views(segs@) == combo_segments(combo@),
            names == views(segs@).drop_last(),
            modifier_flags(names.take(i as int)) == Ok::<(bool, bool, bool, bool), Seq<char>>(
                (alt, ctrl, meta, shift),
            ),
        decreases last - i,
    {
        let ghost pre = names.take(i as int);
        assert(names.take(i + 1).drop_last() =~= pre);
        assert(names.take(i + 1).last() == segs@[i as int]@);
        match modifier_of(&segs[i]) {
            None => {
                let l = lower_chars(&segs[i]);
                let ls = string_from(&l, 0, l.len());
                assert(ls@ =~= l@);
                let mut m = String::from_str("unknown modifier ");
                m.append(debug_str(ls.as_str()).as_str());
                m.append(" in ");
                m.append(debug_str(combo).as_str());
                proof {
                    assert(modifier_flags(names.take(i + 1)) == Err::<
                        (bool, bool, bool, bool),
                        Seq<char>,
                    >(lower(segs@[i as int]@)));
                    lemma_flags_error_prefix(names, i as int + 1);
                    assert(views(segs@) == combo_segments(combo@));
                    assert(ls@ == lower(segs@[i as int]@));
                }
                return Err(KhoraError::InvalidKeyCombo(m));
            },
            Some(k) => {
                alt = alt || k == 0;
                ctrl = ctrl || k == 1;
                meta = meta || k == 2;
                shift = shift || k == 3;
            },
        }
        i = i + 1;
    }
    assert(names.take(last as int) =~= names);
    let mask: i64 = (if alt {
        1i64
    } else {
        0i64
    }) + (if ctrl {
        2i64
    } else {
        0i64
    }) + (if meta {
        4i64
    } else {
        0i64
    }) + (if shift {
        8i64
    } else {
        0i64
    });
    let name = string_from(&segs[last], 0, segs[last].len());
    assert(name@ =~= segs@[last as int]@);
    Ok((mask, name))
}

/// An error in the flags of a prefix is the error of the whole list.
pub proof fn lemma_flags_error_prefix(names: Seq<Seq<char>>, k: int)
    requires
        0 <= k <= names.len(),
        modifier_flags(names.take(k)) is Err,
    ensures
        modifier_flags(names) == modifier_flags(names.take(k)),
    decreases names.len() - k,
{
    if k < names.len() {
        assert(names.take(k + 1).drop_last() =~= names.take(k));
        lemma_flags_error_prefix(names, k + 1);
    } else {
        assert(names.take(k) =~= names);
    }
}

/// A `String` of one character.
fn one_char(c: char) -> (r: String)
    ensures
        r@ == seq![c],
{
    let mut r = String::new();
    push_char(&mut r, c);
    r
}

/// `lit` followed by the character `c`.
fn lit_then_char(lit: &str, c: char) -> (r: String)
    ensures
        r@ == lit@ + seq![c],
{
    let mut r = String::from_str(lit);
    push_char(&mut r, c);
    r
}

/// A named key's `key`, `code` and key code (see `named_key`).
fn named_key_info(l: &Vec<char>) -> (r: Option<(String, String, i64)>)
    ensures
        match r {
            Some((k, c, vk)) => named_key(l@) == Some((k@, c@, vk)),
            None => named_key(l@) is None,
        },
{
    if chars_are(l, "enter") || chars_are(l, "return") {
        Some((String::from_str("Enter"), String::from_str("Enter"), 13))
    } else if chars_are(l, "escape") || chars_are(l, "esc") {
        Some((String::from_str("Escape"), String::from_str("Escape"), 27))
    } else if chars_are(l, "tab") {
        Some((String::from_str("Tab"), String::from_str("Tab"), 9))
    } else if chars_are(l, "backspace") {
        Some((String::from_str("Backspace"), String::from_str("Backspace"), 8))
    } else if chars_are(l, "delete") || chars_are(l, "del") {
        Some((String::from_str("Delete"), String::from_str("Delete"), 46))
    } else if chars_are(l, "space") {
        Some((String::from_str(" "), String::from_str("Space"), 32))
    } else if chars_are(l, "home") {
        Some((String::from_str("Home"), String::from_str("Home"), 36))
    } else if chars_are(l, "end") {
        Some((String::from_str("End"), String::from_str("End"), 35))
    } else if chars_are(l, "pageup") {
        Some((String::from_str("PageUp"), String::from_str("PageUp"), 33))
    } else if chars_are(l, "pagedown") {
        Some((String::from_str("PageDown"), String::from_str("PageDown"), 34))
    } else if chars_are(l, "arrowup") || chars_are(l, "up") {
        Some((String::from_str("ArrowUp"), String::from_str("ArrowUp"), 38))
    } else if chars_are(l, "arrowdown") || chars_are(l, "down") {
        Some((String::from_str("ArrowDown"), String::from_str("ArrowDown"), 40))
    } else if chars_are(l, "arrowleft") || chars_are(l, "left") {
        Some((String::from_str("ArrowLeft"), String::from_str("ArrowLeft"), 37))
    } else if chars_are(l, "arrowright") || chars_are(l, "right") {
        Some((String::from_str("ArrowRight"), String::from_str("ArrowRight"), 39))
    } else {
        None
    }
}

/// The CDP `key`, `code` and Windows virtual-key code for a key name: single
/// letters and digits, or a named key (Enter, Escape, Tab, Backspace, Delete,
/// Space, Home, End, PageUp, PageDown, arrow keys).
pub fn key_info(name: &str) -> (r: Option<(String, String, i64)>)
    ensures
        match r {
            Some((k, c, vk)) => key_info_spec(name@) == Some((k@, c@, vk)),
            None => key_info_spec(name@) is None,
        },
{
    let v = chars_of(name);
    if v.len() == 1 && char_is_alpha(v[0]) {
        let c = v[0];
        let up = char_upper(c);
        return Some((one_char(char_lower(c)), lit_then_char("Key", up), (up as u32) as i64));
    }
    if v.len() == 1 && char_is_digit(v[0]) {
        let c = v[0];
        return Some((one_char(c), lit_then_char("Digit", c), (c as u32) as i64));
    }
    let l = lower_chars(&v);
    named_key_info(&l)
}

/// The trusted key event for a `+`-separated combo such as `Cmd+D`,
/// `Ctrl+Shift+I` or `Escape`: modifiers, `key`, `code` and key code. With
/// Shift held a letter reports its upper-case `key`.
pub fn key_event(combo: &str) -> (r: Result<KeyEvent, KhoraError>)
    ensures
        match r {
            Ok(ev) => key_event_spec(combo@) == Ok::<(i64, Seq<char>, Seq<char>, i64), Seq<char>>(
                (ev.modifiers, ev.key@, ev.code@, ev.virtual_key),
            ),
            Err(e) => e matches KhoraError::InvalidKeyCombo(m) && key_event_spec(combo@) == Err::<
                (i64, Seq<char>, Seq<char>, i64),
                Seq<char>,
            >(m@),
        },
{
    let (mods, name) = match parse_key_combo(combo) {
        Ok(p) => p,
        Err(e) => return Err(e),
    };
    match key_info(name.as_str()) {
        None => {
            let mut m = String::from_str("unsupported key ");
            m.append(debug_str(name.as_str()).as_str());
            m.append(" in ");
            m.append(debug_str(combo).as_str());
            Err(KhoraError::InvalidKeyCombo(m))
        },
        Some((key, code, vk)) => {
            let kv = chars_of(key.as_str());
            let shifted = mods >= 8;
            let key = if shifted && kv.len() == 1 && char_is_alpha(kv[0]) {
                one_char(char_upper(kv[0]))
            } else {
                key
            };
            Ok(KeyEvent { modifiers: mods, key, code, virtual_key: vk })
        },
    }
}

} // verus!

verus! {

// ---------------------------------------------------------------------------
// Key combos do not depend on ASCII letter case
// ---------------------------------------------------------------------------

/// The event a combo stands for, when it stands for one.
pub open spec fn key_event_ok(combo: Seq<char>) -> Option<(i64, Seq<char>, Seq<char>, i64)> {
    match key_event_spec(combo) {
        Ok(ev) => Some(ev),
        Err(_) => None,
    }
}

proof fn lemma_lower_char_facts(c: char)
    ensures
        lower_char(lower_char(c)) == lower_char(c),
        (lower_char(c) == '+') == (c == '+'),
        crate::text::is_ws(lower_char(c)) == crate::text::is_ws(c),
        is_alpha(lower_char(c)) == is_alpha(c),
        is_digit(lower_char(c)) == is_digit(c),
        is_alpha(c) ==> upper_char(lower_char(c)) == upper_char(c),
        is_digit(c) ==> lower_char(c) == c,
{
    if crate::text::is_upper(c) {
        assert(((c as u32 + 32) as char) as u32 == c as u32 + 32);
    }
    if 97 <= (c as u32) <= 122 {
        assert(((c as u32 - 32) as char) as u32 == c as u32 - 32);
    }
}

proof fn lemma_lower_idempotent(s: Seq<char>)
    ensures
        lower(lower(s)) == lower(s),
{
    assert forall|i: int| 0 <= i < s.len() implies lower(lower(s))[i] == lower(s)[i] by {
        lemma_lower_char_facts(s[i]);
    }
    assert(lower(lower(s)) =~= lower(s));
}

proof fn lemma_split_from_lower(s: Seq<char>, cur: Seq<char>)
    ensures
        split_from(lower(s), '+', lower(cur)) == split_from(s, '+', cur).map_values(
            |p: Seq<char>| lower(p),
        ),
    decreases s.len(),
{
    if s.len() == 0 {
        assert(lower(s) =~= Seq::<char>::empty());
        assert(seq![lower(cur)] =~= seq![cur].map_values(|p: Seq<char>| lower(p)));
    } else {
        lemma_lower_char_facts(s[0]);
        assert(lower(s)[0] == lower_char(s[0]));
        assert(lower(s).drop_first() =~= lower(s.drop_first()));
        if s[0] == '+' {
            lemma_split_from_lower(s.drop_first(), Seq::empty());
            assert(lower(Seq::<char>::empty()) =~= Seq::<char>::empty());
            let rest = split_from(s.drop_first(), '+', Seq::empty());
            assert((seq![cur] + rest).map_values(|p: Seq<char>| lower(p)) =~= seq![lower(cur)]
                + rest.map_values(|p: Seq<char>| lower(p)));
        } else {
            lemma_split_from_lower(s.drop_first(), cur.push(s[0]));
            assert(lower(cur.push(s[0])) =~= lower(cur).push(lower_char(s[0])));
        }
    }
}

proof fn lemma_trim_start_lower(s: Seq<char>)
    ensures
        crate::text::trim_start(lower(s)) == lower(crate::text::trim_start(s)),
    decreases s.len(),
{
    if s.len() > 0 {
        lemma_lower_char_facts(s[0]);
        assert(lower(s)[0] == lower_char(s[0]));
        assert(lower(s).drop_first() =~= lower(s.drop_first()));
        if crate::text::is_ws(s[0]) {
            lemma_trim_start_lower(s.drop_first());
        }
    } else {
        assert(lower(s) =~= s);
    }
}

proof fn lemma_trim_end_lower(s: Seq<char>)
    ensures
        crate::text::trim_end(lower(s)) == lower(crate::text::trim_end(s)),
    decreases s.len(),
{
    if s.len() > 0 {
        lemma_lower_char_facts(s.last());
        assert(lower(s).last() == lower_char(s.last()));
        assert(lower(s).drop_last() =~= lower(s.drop_last()));
        if crate::text::is_ws(s.last()) {
            lemma_trim_end_lower(s.drop_last());
        }
    } else {
        assert(lower(s) =~= s);
    }
}

proof fn lemma_nonempty_lower(ps: Seq<Seq<char>>)
    ensures
        nonempty(ps.map_values(|p: Seq<char>| lower(p))) == nonempty(ps).map_values(
            |p: Seq<char>| lower(p),
        ),
    decreases ps.len(),
{
    let lp = ps.map_values(|p: Seq<char>| lower(p));
    if ps.len() > 0 {
        assert(lp.drop_last() =~= ps.drop_last().map_values(|p: Seq<char>| lower(p)));
        assert(lp.last() == lower(ps.last()));
        lemma_nonempty_lower(ps.drop_last());
        if ps.last().len() > 0 {
            assert(nonempty(ps).map_values(|p: Seq<char>| lower(p)) =~= nonempty(
                ps.drop_last(),
            ).map_values(|p: Seq<char>| lower(p)).push(lower(ps.last())));
        }
    } else {
        assert(lp =~= ps);
    }
}

/// The segments of a lower-cased combo are the lower-cased segments.
proof fn lemma_segments_lower(c: Seq<char>)
    ensures
        combo_segments(lower(c)) == combo_segments(c).map_values(|p: Seq<char>| lower(p)),
{
    lemma_split_from_lower(c, Seq::empty());
    assert(lower(Seq::<char>::empty()) =~= Seq::<char>::empty());
    let pieces = split_on(c, '+');
    let a = split_on(lower(c), '+').map_values(|p: Seq<char>| trim(p));
    let b = pieces.map_values(|p: Seq<char>| trim(p)).map_values(|p: Seq<char>| lower(p));
    assert forall|i: int| 0 <= i < a.len() implies a[i] == b[i] by {
        lemma_trim_start_lower(pieces[i]);
        lemma_trim_end_lower(crate::text::trim_start(pieces[i]));
    }
    assert(a =~= b);
    lemma_nonempty_lower(pieces.map_values(|p: Seq<char>| trim(p)));
}

proof fn lemma_modifier_flags_lower(names: Seq<Seq<char>>)
    ensures
        modifier_flags(names.map_values(|p: Seq<char>| lower(p))) == modifier_flags(names),
    decreases names.len(),
{
    let ln = names.map_values(|p: Seq<char>| lower(p));
    if names.len() > 0 {
        assert(ln.drop_last() =~= names.drop_last().map_values(|p: Seq<char>| lower(p)));
        lemma_modifier_flags_lower(names.drop_last());
        lemma_lower_idempotent(names.last());
        assert(ln.last() == lower(names.last()));
    }
}

proof fn lemma_key_info_lower(name: Seq<char>)
    ensures
        key_info_spec(lower(name)) == key_info_spec(name),
{
    lemma_lower_idempotent(name);
    if name.len() == 1 {
        lemma_lower_char_facts(name[0]);
        assert(lower(name)[0] == lower_char(name[0]));
    }
}

/// Letter case in a key combo does not matter: a combo and its ASCII
/// lower-cased form stand for the same key event (modifiers, key, code and
/// key code), or neither stands for one.
pub proof fn lemma_key_combo_case_insensitive(combo: Seq<char>)
    ensures
        key_event_ok(lower(combo)) == key_event_ok(combo),
{
    lemma_segments_lower(combo);
    let segs = combo_segments(combo);
    let lsegs = combo_segments(lower(combo));
    if segs.len() > 0 {
        assert(lsegs.drop_last() =~= segs.drop_last().map_values(|p: Seq<char>| lower(p)));
        lemma_modifier_flags_lower(segs.drop_last());
        assert(lsegs.last() == lower(segs.last()));
        lemma_key_info_lower(segs.last());
    }
}

/// Two combos that differ only in ASCII letter case stand for the same key
/// event.
pub proof fn lemma_key_combos_same_up_to_case(a: Seq<char>, b: Seq<char>)
    requires
        lower(a) == lower(b),
    ensures
        key_event_ok(a) == key_event_ok(b),
{
    lemma_key_combo_case_insensitive(a);
    lemma_key_combo_case_insensitive(b);
}

} // verus!

verus! {

// ---------------------------------------------------------------------------
// The order and repetition of modifiers do not matter
// ---------------------------------------------------------------------------

/// Whether every name in the list is a modifier.
pub open spec fn all_modifiers(names: Seq<Seq<char>>) -> bool {
    forall|i: int| 0 <= i < names.len() ==> #[trigger] modifier_index(names[i]) is Some
}

/// Whether some name in the list names modifier `k` (see `modifier_index`).
pub open spec fn names_modifier(names: Seq<Seq<char>>, k: int) -> bool {
    exists|i: int| 0 <= i < names.len() && #[trigger] modifier_index(names[i]) == Some(k)
}

/// A list of modifiers turns on exactly the modifiers it names.
pub proof fn lemma_flags_are_named_modifiers(names: Seq<Seq<char>>)
    requires
        all_modifiers(names),
    ensures
        modifier_flags(names) == Ok::<(bool, bool, bool, bool), Seq<char>>(
            (
                names_modifier(names, 0),
                names_modifier(names, 1),
                names_modifier(names, 2),
                names_modifier(names, 3),
            ),
        ),
    decreases names.len(),
{
    if names.len() > 0 {
        let init = names.drop_last();
        assert forall|i: int| 0 <= i < init.len() implies #[trigger] modifier_index(init[i]) is Some by {
            assert(init[i] == names[i]);
        }
        lemma_flags_are_named_modifiers(init);
        let last = names.len() - 1;
        assert(modifier_index(names[last]) is Some);
        assert forall|k: int| #![trigger names_modifier(names, k)]
            names_modifier(names, k) == (names_modifier(init, k) || modifier_index(names.last())
                == Some(k)) by {
            if names_modifier(names, k) {
                let i = choose|i: int| 0 <= i < names.len() && #[trigger] modifier_index(names[i]) == Some(k);
                if i < last {
                    assert(init[i] == names[i]);
                }
            }
            if names_modifier(init, k) {
                let i = choose|i: int| 0 <= i < init.len() && #[trigger] modifier_index(init[i]) == Some(k);
                assert(init[i] == names[i]);
            }
        }
        assert(names_modifier(names, 0) == (names_modifier(init, 0) || modifier_index(names.last()) == Some(0int)));
        assert(names_modifier(names, 1) == (names_modifier(init, 1) || modifier_index(names.last()) == Some(1int)));
        assert(names_modifier(names, 2) == (names_modifier(init, 2) || modifier_index(names.last()) == Some(2int)));
        assert(names_modifier(names, 3) == (names_modifier(init, 3) || modifier_index(names.last()) == Some(3int)));
    } else {
        assert(!names_modifier(names, 0));
        assert(!names_modifier(names, 1));
        assert(!names_modifier(names, 2));
        assert(!names_modifier(names, 3));
    }
}

/// Two combos with the same key, whose modifiers are all valid and name the
/// same set of modifiers, parse alike: the order of the modifiers and their
/// repetition do not matter ("Ctrl+Shift+I", "Shift+Ctrl+I" and
/// "Shift+Ctrl+Shift+I" all give the bitfield 10 and the key "I"), and so they
/// stand for the same key event.
pub proof fn lemma_modifier_order_and_repeats(a: Seq<char>, b: Seq<char>)
    requires
        combo_segments(a).len() > 0,
        combo_segments(b).len() > 0,
        combo_segments(a).last() == combo_segments(b).last(),
        all_modifiers(combo_segments(a).drop_last()),
        all_modifiers(combo_segments(b).drop_last()),
        forall|k: int|
            0 <= k < 4 ==> names_modifier(combo_segments(a).drop_last(), k) == names_modifier(
                combo_segments(b).drop_last(),
                k,
            ),
    ensures
        parse_key_combo_spec(a) is Ok,
        parse_key_combo_spec(a) == parse_key_combo_spec(b),
        key_event_ok(a) == key_event_ok(b),
        key_event_ok(a) is Some <==> key_info_spec(combo_segments(a).last()) is Some,
{
    let ma = combo_segments(a).drop_last();
    let mb = combo_segments(b).drop_last();
    lemma_flags_are_named_modifiers(ma);
    lemma_flags_are_named_modifiers(mb);
    assert(names_modifier(ma, 0) == names_modifier(mb, 0));
    assert(names_modifier(ma, 1) == names_modifier(mb, 1));
    assert(names_modifier(ma, 2) == names_modifier(mb, 2));
    assert(names_modifier(ma, 3) == names_modifier(mb, 3));
}

} // verus!

verus! {

// ---------------------------------------------------------------------------
// Which spelling sets which modifier bit
// ---------------------------------------------------------------------------

/// Whether some name in the list is, ASCII case aside, one of `words`.
pub open spec fn spells(names: Seq<Seq<char>>, words: Seq<Seq<char>>) -> bool {
    exists|i: int| 0 <= i < names.len() && words.contains(lower(#[trigger] names[i]))
}

/// The modifier spellings a key combo accepts, ASCII case aside.
pub open spec fn modifier_words() -> Seq<Seq<char>> {
    seq![
        "alt"@,
        "option"@,
        "ctrl"@,
        "control"@,
        "cmd"@,
        "command"@,
        "meta"@,
        "shift"@,
    ]
}

/// Which modifier each spelling names: `alt` and `option` name Alt (0),
/// `ctrl` and `control` Ctrl (1), `cmd`, `command` and `meta` Meta (2),
/// `shift` Shift (3), whatever the ASCII case; nothing else is a modifier.
pub proof fn lemma_modifier_spellings(n: Seq<char>)
    ensures
        (lower(n) == "alt"@ || lower(n) == "option"@) <==> modifier_index(n) == Some(0int),
        (lower(n) == "ctrl"@ || lower(n) == "control"@) <==> modifier_index(n) == Some(1int),
        (lower(n) == "cmd"@ || lower(n) == "command"@ || lower(n) == "meta"@) <==> modifier_index(n)
            == Some(2int),
        lower(n) == "shift"@ <==> modifier_index(n) == Some(3int),
        modifier_words().contains(lower(n)) <==> modifier_index(n) is Some,
{
    reveal_strlit("alt");
    reveal_strlit("option");
    reveal_strlit("ctrl");
    reveal_strlit("control");
    reveal_strlit("cmd");
    reveal_strlit("command");
    reveal_strlit("meta");
    reveal_strlit("shift");
    assert("alt"@.len() == 3 && "option"@.len() == 6 && "ctrl"@.len() == 4 && "control"@.len() == 7
        && "cmd"@.len() == 3 && "command"@.len() == 7 && "meta"@.len() == 4 && "shift"@.len() == 5);
    assert("alt"@[0] == 'a' && "cmd"@[0] == 'c' && "ctrl"@[0] == 'c' && "meta"@[0] == 'm'
        && "control"@[2] == 'n' && "command"@[2] == 'm');
    assert("alt"@ != "cmd"@ && "ctrl"@ != "meta"@ && "control"@ != "command"@);
    let l = lower(n);
    let w = modifier_words();
    if w.contains(l) {
        let k = choose|k: int| 0 <= k < w.len() && w[k] == l;
        assert(k == 0 || k == 1 || k == 2 || k == 3 || k == 4 || k == 5 || k == 6 || k == 7);
    }
    if modifier_index(n) is Some {
        if l == "alt"@ {
            assert(w[0] == l);
        } else if l == "option"@ {
            assert(w[1] == l);
        } else if l == "ctrl"@ {
            assert(w[2] == l);
        } else if l == "control"@ {
            assert(w[3] == l);
        } else if l == "cmd"@ {
            assert(w[4] == l);
        } else if l == "command"@ {
            assert(w[5] == l);
        } else if l == "meta"@ {
            assert(w[6] == l);
        } else {
            assert(w[7] == l);
        }
    }
}

/// The bitfield a key combo parses to, from its spellings: a combo whose
/// non-last segments are all modifier spellings parses to its last segment
/// and the sum of Alt = 1 (some `alt` or `option`), Ctrl = 2 (some `ctrl` or
/// `control`), Meta = 4 (some `cmd`, `command` or `meta`) and Shift = 8 (some
/// `shift`), ASCII case aside. So "Option+X" and "Alt+X" both parse to
/// bitfield 1, and "Cmd+X" to 4.
pub proof fn lemma_modifier_bits(combo: Seq<char>)
    requires
        combo_segments(combo).len() > 0,
        forall|i: int|
            0 <= i < combo_segments(combo).len() - 1 ==> modifier_words().contains(
                lower(#[trigger] combo_segments(combo)[i]),
            ),
    ensures
        parse_key_combo_spec(combo) == Ok::<(i64, Seq<char>), Seq<char>>(
            (
                ((if spells(combo_segments(combo).drop_last(), seq!["alt"@, "option"@]) {
                    1int
                } else {
                    0int
                }) + (if spells(combo_segments(combo).drop_last(), seq!["ctrl"@, "control"@]) {
                    2int
                } else {
                    0int
                }) + (if spells(
                    combo_segments(combo).drop_last(),
                    seq!["cmd"@, "command"@, "meta"@],
                ) {
                    4int
                } else {
                    0int
                }) + (if spells(combo_segments(combo).drop_last(), seq!["shift"@]) {
                    8int
                } else {
                    0int
                })) as i64,
                combo_segments(combo).last(),
            ),
        ),
{
    let segs = combo_segments(combo);
    let mods = segs.drop_last();
    assert forall|i: int| 0 <= i < mods.len() implies #[trigger] modifier_index(mods[i]) is Some by {
        assert(mods[i] == segs[i]);
        lemma_modifier_spellings(mods[i]);
    }
    lemma_flags_are_named_modifiers(mods);
    let alt_w = seq!["alt"@, "option"@];
    let ctrl_w = seq!["ctrl"@, "control"@];
    let meta_w = seq!["cmd"@, "command"@, "meta"@];
    let shift_w = seq!["shift"@];
    assert forall|k: int, ws: Seq<Seq<char>>|
        (k == 0 && ws == alt_w) || (k == 1 && ws == ctrl_w) || (k == 2 && ws == meta_w) || (k == 3
            && ws == shift_w) implies #[trigger] names_modifier(mods, k) == #[trigger] spells(mods, ws) by {
        if names_modifier(mods, k) {
            let i = choose|i: int| 0 <= i < mods.len() && #[trigger] modifier_index(mods[i]) == Some(k);
            lemma_modifier_spellings(mods[i]);
            let l = lower(mods[i]);
            if k == 0 {
                if l == "alt"@ { assert(ws[0] == l); } else { assert(ws[1] == l); }
            } else if k == 1 {
                if l == "ctrl"@ { assert(ws[0] == l); } else { assert(ws[1] == l); }
            } else if k == 2 {
                if l == "cmd"@ { assert(ws[0] == l); } else if l == "command"@ { assert(ws[1] == l); } else { assert(ws[2] == l); }
            } else {
                assert(ws[0] == l);
            }
        }
        if spells(mods, ws) {
            let i = choose|i: int| 0 <= i < mods.len() && ws.contains(lower(#[trigger] mods[i]));
            lemma_modifier_spellings(mods[i]);
            let j = choose|j: int| 0 <= j < ws.len() && ws[j] == lower(mods[i]);
            assert(modifier_index(mods[i]) == Some(k));
        }
    }
    assert(names_modifier(mods, 0) == spells(mods, alt_w));
    assert(names_modifier(mods, 1) == spells(mods, ctrl_w));
    assert(names_modifier(mods, 2) == spells(mods, meta_w));
    assert(names_modifier(mods, 3) == spells(mods, shift_w));
}

} // verus!
