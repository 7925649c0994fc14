use vstd::prelude::*;
use vstd::string::*;
use crate::element::ElementInfo;
use crate::error::KhoraError;
use crate::json::{
    bool_field, get_bool, get_str, get_u64, json_quote, json_quoted, str_field, u64_field,
    JsonValue,
};
use crate::output::bool_text;
use crate::text::{chars_of, debug_str, debug_text, str_eq};

verus! {

// The page scripts. A selector, text or attribute name is spliced in as the
// JSON string literal that `serde_json::to_string` writes for it (`json_quoted`),
// so it cannot close that literal early (`lemma_quoted_literal_closes`).

pub const FIND_0: &'static str = "\n            (() => {\n                let els;\n                try {\n                    els = document.querySelectorAll(";
pub const FIND_1: &'static str = ");\n                } catch (e) {\n                    return { error: e.message };\n                }\n                const count = els.length;\n                return Array.from(els).map((el, i) => {\n                    const rect = el.getBoundingClientRect();\n                    return {\n                        tag_name: el.tagName.toLowerCase(),\n                        text: el.textContent?.trim()?.substring(0, 200) || null,\n                        visible: rect.width > 0 && rect.height > 0,\n                        bounding_box: rect.width > 0 ? {\n                            x: rect.x,\n                            y: rect.y,\n                            width: rect.width,\n                            height: rect.height\n                        } : null,\n                        match_count: count,\n                        match_index: i\n                    };\n                });\n            })()\n            ";
pub const CLICK_0: &'static str = "\n            (() => {\n                let el;\n                try {\n                    el = document.querySelector(";
pub const CLICK_1: &'static str = ");\n                } catch (e) {\n                    return { found: false, error: e.message };\n                }\n                if (!el) return { found: false };\n                el.click();\n                return { found: true };\n            })()\n            ";
pub const TYPE_0: &'static str = "\n            (() => {\n                let el;\n                try {\n                    el = document.querySelector(";
pub const TYPE_1: &'static str = ");\n                } catch (e) {\n                    return { found: false, error: e.message };\n                }\n                if (!el) return { found: false };\n                el.focus();\n                const proto = el.tagName === 'TEXTAREA'\n                    ? window.HTMLTextAreaElement.prototype\n                    : window.HTMLInputElement.prototype;\n                const setter = Object.getOwnPropertyDescriptor(proto, 'value')?.set;\n                if (setter) {\n                    setter.call(el, ";
pub const TYPE_2: &'static str = ");\n                } else {\n                    el.value = ";
pub const TYPE_3: &'static str = ";\n                }\n                el.dispatchEvent(new Event('input', { bubbles: true }));\n                el.dispatchEvent(new Event('change', { bubbles: true }));\n                return { found: true };\n            })()\n            ";
pub const TEXT_0: &'static str = "\n            (() => {\n                let els;\n                try {\n                    els = document.querySelectorAll(";
pub const TEXT_1: &'static str = ");\n                } catch (e) {\n                    return { error: e.message };\n                }\n                if (els.length === 0) return null;\n                return Array.from(els).map(el => el.textContent?.trim() || \"\");\n            })()\n            ";
pub const ATTRIBUTE_0: &'static str = "\n            (() => {\n                let el;\n                try {\n                    el = document.querySelector(";
pub const ATTRIBUTE_1: &'static str = ");\n                } catch (e) {\n                    return { found: false, error: e.message };\n                }\n                if (!el) return { found: false };\n                const val = el.getAttribute(";
pub const ATTRIBUTE_2: &'static str = ");\n                return { found: true, value: val };\n            })()\n            ";
pub const WAIT_FOR_0: &'static str = "\n            (() => {\n                try {\n                    return { found: document.querySelector(";
pub const WAIT_FOR_1: &'static str = ") !== null };\n                } catch (e) {\n                    return { error: e.message };\n                }\n            })()\n            ";
pub const WAIT_GONE_0: &'static str = "\n            (() => {\n                try {\n                    return { gone: document.querySelector(";
pub const WAIT_GONE_1: &'static str = ") === null };\n                } catch (e) {\n                    return { error: e.message };\n                }\n            })()\n            ";
pub const CLIP_0: &'static str = "\n            (() => {\n                let el;\n                try {\n                    el = document.querySelector(";
pub const CLIP_1: &'static str = ");\n                } catch (e) {\n                    return { error: e.message };\n                }\n                if (!el) return [];\n                el.scrollIntoView({ block: 'center', inline: 'center' });\n                const rect = el.getBoundingClientRect();\n                if (rect.width <= 0 || rect.height <= 0) return [];\n                return [{\n                    x: rect.left + window.scrollX,\n                    y: rect.top + window.scrollY,\n                    width: rect.width,\n                    height: rect.height,\n                }];\n            })()\n            ";
pub const CONSOLE_READ_SCRIPT: &'static str = "\n            (() => {\n                if (!window.__khora_console) return [];\n                return window.__khora_console;\n            })()\n        ";
pub const NETWORK_READ_SCRIPT: &'static str = "\n            (() => {\n                if (!window.__khora_network) return [];\n                return window.__khora_network;\n            })()\n        ";
pub const NETWORK_HOOK_SCRIPT: &'static str = "\n            (() => {\n                if (window.__khora_network) return;\n                window.__khora_network = [];\n\n                // Patch fetch\n                const origFetch = window.fetch;\n                window.fetch = function(input, init) {\n                    const url = (typeof input === 'string') ? input : (input.url || String(input));\n                    const method = (init && init.method) ? init.method.toUpperCase() : 'GET';\n                    const entry = { url, method, status: null, resource_type: 'fetch' };\n                    window.__khora_network.push(entry);\n                    return origFetch.apply(this, arguments).then(resp => {\n                        entry.status = resp.status;\n                        return resp;\n                    }).catch(err => {\n                        entry.status = 0;\n                        throw err;\n                    });\n                };\n\n                // Patch XMLHttpRequest\n                const origOpen = XMLHttpRequest.prototype.open;\n                const origSend = XMLHttpRequest.prototype.send;\n                XMLHttpRequest.prototype.open = function(method, url) {\n                    this.__khora = { url: String(url), method: method.toUpperCase(), resource_type: 'xhr' };\n                    return origOpen.apply(this, arguments);\n                };\n                XMLHttpRequest.prototype.send = function() {\n                    if (this.__khora) {\n                        const entry = { ...this.__khora, status: null };\n                        window.__khora_network.push(entry);\n                        this.addEventListener('loadend', () => {\n                            entry.status = this.status || 0;\n                        });\n                    }\n                    return origSend.apply(this, arguments);\n                };\n            })()\n        ";
pub const CONSOLE_HOOK_SCRIPT: &'static str = "\n            (() => {\n                if (window.__khora_console) return;\n                window.__khora_console = [];\n                const orig = {};\n                ['log', 'warn', 'error', 'info'].forEach(level => {\n                    orig[level] = console[level];\n                    console[level] = function(...args) {\n                        window.__khora_console.push({\n                            level: level,\n                            text: args.map(a => String(a)).join(' ')\n                        });\n                        orig[level].apply(console, args);\n                    };\n                });\n            })()\n        ";

/// `head`, then `a` as a JSON string literal, then `tail`.
fn splice1(head: &str, a: &str, tail: &str) -> (r: String)
    ensures
        r@ == head@ + json_quoted(a@) + tail@,
{
    let mut r = String::from_str(head);
    r.append(json_quote(a).as_str());
    r.append(tail);
    r
}

/// The script listing every element matching `selector` with its tag, text,
/// visibility, box, match count and index.
pub fn find_elements_script(selector: &str) -> (r: String)
    ensures
        r@ == FIND_0@ + json_quoted(selector@) + FIND_1@,
{
    splice1(FIND_0, selector, FIND_1)
}

/// The script clicking the first element matching `selector`.
pub fn click_script(selector: &str) -> (r: String)
    ensures
        r@ == CLICK_0@ + json_quoted(selector@) + CLICK_1@,
{
    splice1(CLICK_0, selector, CLICK_1)
}

/// The script focusing the first element matching `selector`, setting its
/// value through the native setter and firing `input` and `change`.
pub fn type_text_script(selector: &str, text: &str) -> (r: String)
    ensures
        r@ == TYPE_0@ + json_quoted(selector@) + TYPE_1@ + json_quoted(text@) + TYPE_2@
            + json_quoted(text@) + TYPE_3@,
{
    let q = json_quote(text);
    let mut r = splice1(TYPE_0, selector, TYPE_1);
    r.append(q.as_str());
    r.append(TYPE_2);
    r.append(q.as_str());
    r.append(TYPE_3);
    r
}

/// The script reading the trimmed text of every element matching `selector`.
pub fn get_text_script(selector: &str) -> (r: String)
    ensures
        r@ == TEXT_0@ + json_quoted(selector@) + TEXT_1@,
{
    splice1(TEXT_0, selector, TEXT_1)
}

/// The script reading attribute `attribute` of the first element matching
/// `selector`.
pub fn get_attribute_script(selector: &str, attribute: &str) -> (r: String)
    ensures
        r@ == ATTRIBUTE_0@ + json_quoted(selector@) + ATTRIBUTE_1@ + json_quoted(attribute@)
            + ATTRIBUTE_2@,
{
    let mut r = splice1(ATTRIBUTE_0, selector, ATTRIBUTE_1);
    r.append(json_quote(attribute).as_str());
    r.append(ATTRIBUTE_2);
    r
}

/// The script telling whether an element matching `selector` exists.
pub fn wait_for_script(selector: &str) -> (r: String)
    ensures
        r@ == WAIT_FOR_0@ + json_quoted(selector@) + WAIT_FOR_1@,
{
    splice1(WAIT_FOR_0, selector, WAIT_FOR_1)
}

/// The script telling whether no element matches `selector`.
pub fn wait_gone_script(selector: &str) -> (r: String)
    ensures
        r@ == WAIT_GONE_0@ + json_quoted(selector@) + WAIT_GONE_1@,
{
    splice1(WAIT_GONE_0, selector, WAIT_GONE_1)
}

/// The script scrolling the first element matching `selector` into view and
/// giving its page-coordinate box (an empty list when there is no such
/// element or it has no area).
pub fn element_clip_script(selector: &str) -> (r: String)
    ensures
        r@ == CLIP_0@ + json_quoted(selector@) + CLIP_1@,
{
    splice1(CLIP_0, selector, CLIP_1)
}

// ---------------------------------------------------------------------------
// Replies
// ---------------------------------------------------------------------------

/// The message for a selector the page refused: `invalid selector "<sel>": <err>`.
pub open spec fn bad_selector_message(selector: Seq<char>, err: Seq<char>) -> Seq<char> {
    "invalid selector "@ + debug_text(selector) + ": "@ + err
}

/// Why an element lookup failed, read from the page's reply: `Some(message)`
/// when the reply carries a string `error` (the selector was refused), `None`
/// when the element simply was not there.
pub open spec fn failure_of(v: JsonValue, selector: Seq<char>) -> Option<Seq<char>> {
    match str_field(v, "error"@) {
        Some(err) => Some(bad_selector_message(selector, err)),
        None => None,
    }
}

/// `e` reports the failure `f` for `selector`: a JavaScript error with the
/// message, or element-not-found naming the selector.
pub open spec fn reports(e: KhoraError, f: Option<Seq<char>>, selector: Seq<char>) -> bool {
    match f {
        Some(m) => e matches KhoraError::JavaScriptError(x) && x@ == m,
        None => e matches KhoraError::ElementNotFound(x) && x@ == selector,
    }
}

/// The error for a failed lookup (see `failure_of`).
fn lookup_failure(v: &JsonValue, selector: &str) -> (e: KhoraError)
    ensures
        reports(e, failure_of(*v, selector@), selector@),
{
    match get_str(v, "error") {
        Some(err) => {
            let mut m = String::from_str("invalid selector ");
            m.append(debug_str(selector).as_str());
            m.append(": ");
            m.append(err.as_str());
            KhoraError::JavaScriptError(m)
        },
        None => KhoraError::ElementNotFound(String::from_str(selector)),
    }
}

/// `e` is the element that item `item` of a find reply describes: the
/// selector, the `tag_name` string (or `unknown`), the `text` string if any,
/// the `visible` flag (false if absent), and the `match_count` and
/// `match_index` integers (0 if absent). The box is left for the caller,
/// which holds its floating-point coordinates.
pub open spec fn element_from(e: ElementInfo, item: JsonValue, selector: Seq<char>) -> bool {
    &&& e.selector@ == selector
    &&& e.tag_name@ == (match str_field(item, "tag_name"@) {
        Some(t) => t,
        None => "unknown"@,
    })
    &&& (match e.text {
        Some(t) => str_field(item, "text"@) == Some(t@),
        None => str_field(item, "text"@) is None,
    })
    &&& e.bounding_box is None
    &&& e.visible == (match bool_field(item, "visible"@) {
        Some(b) => b,
        None => false,
    })
    &&& e.match_count == (match u64_field(item, "match_count"@) {
        Some(n) => n as usize,
        None => 0usize,
    })
    &&& e.match_index == (match u64_field(item, "match_index"@) {
        Some(n) => n as usize,
        None => 0usize,
    })
}

/// Reads the reply of the find script: a non-empty list gives one element per
/// item; an empty list, or anything that is not a list, is a failed lookup.
pub fn element_reply(value: &JsonValue, selector: &str) -> (r: Result<Vec<ElementInfo>, KhoraError>)
    ensures
        match *value {
            JsonValue::Array(items) => if items@.len() == 0 {
                r matches Err(e) && reports(e, None, selector@)
            } else {
                r matches Ok(es) && es@.len() == items@.len() && forall|i: int|
                    0 <= i < items@.len() ==> element_from(
                        #[trigger] es@[i],
                        items@[i],
                        selector@,
                    )
            },
            _ => r matches Err(e) && reports(e, failure_of(*value, selector@), selector@),
        },
{
    match value {
        JsonValue::Array(items) => {
            if items.len() == 0 {
                return Err(KhoraError::ElementNotFound(String::from_str(selector)));
            }
            let mut es: Vec<ElementInfo> = Vec::new();
            let mut i: usize = 0;
            while i < items.len()
                invariant
                    i <= items@.len(),
                    es@.len() == i,
                    forall|k: int| 0 <= k < i ==> element_from(#[trigger] es@[k], items@[k], selector@),
                decreases items.len() - i,
            {
                let item = &items[i];
                let tag_name = match get_str(item, "tag_name") {
                    Some(t) => t.clone(),
                    None => String::from_str("unknown"),
                };
                let text = match get_str(item, "text") {
                    Some(t) => Some(t.clone()),
                    None => None,
                };
                let visible = match get_bool(item, "visible") {
                    Some(b) => b,
                    None => false,
                };
                let match_count = match get_u64(item, "match_count") {
                    Some(n) => n as usize,
                    None => 0usize,
                };
                let match_index = match get_u64(item, "match_index") {
                    Some(n) => n as usize,
                    None => 0usize,
                };
                es.push(
                    ElementInfo {
                        selector: String::from_str(selector),
                        tag_name,
                        text,
                        bounding_box: None,
                        visible,
                        match_count,
                        match_index,
                    },
                );
                i = i + 1;
            }
            Ok(es)
        },
        _ => Err(lookup_failure(value, selector)),
    }
}

/// An element read from a find reply carries that item's own fields: its
/// `match_index` and `match_count` when the item holds them as integers, its
/// `tag_name` and `text` strings, its `visible` flag. So items at different
/// match positions give elements at different positions, and the report's
/// `[i/n]` follows the page's numbering.
pub proof fn lemma_element_keeps_item_fields(e: ElementInfo, item: JsonValue, selector: Seq<char>)
    requires
        element_from(e, item, selector),
    ensures
        forall|n: u64| u64_field(item, "match_index"@) == Some(n) ==> e.match_index == n as usize,
        forall|n: u64| u64_field(item, "match_count"@) == Some(n) ==> e.match_count == n as usize,
        forall|t: Seq<char>| str_field(item, "tag_name"@) == Some(t) ==> e.tag_name@ == t,
        forall|t: Seq<char>| str_field(item, "text"@) == Some(t) ==> (e.text matches Some(x) && x@ == t),
        forall|b: bool| bool_field(item, "visible"@) == Some(b) ==> e.visible == b,
        e.selector@ == selector,
{
}

/// Two elements read from items holding different match positions (below
/// `usize::MAX`) have different `match_index` values.
pub proof fn lemma_elements_keep_distinct_positions(
    e1: ElementInfo,
    item1: JsonValue,
    e2: ElementInfo,
    item2: JsonValue,
    selector: Seq<char>,
    n1: u64,
    n2: u64,
)
    requires
        element_from(e1, item1, selector),
        element_from(e2, item2, selector),
        u64_field(item1, "match_index"@) == Some(n1),
        u64_field(item2, "match_index"@) == Some(n2),
        n1 != n2,
        n1 <= usize::MAX,
        n2 <= usize::MAX,
    ensures
        e1.match_index != e2.match_index,
{
    lemma_element_keeps_item_fields(e1, item1, selector);
    lemma_element_keeps_item_fields(e2, item2, selector);
}

/// Whether the reply says the element was found (`found: true`).
pub open spec fn found(v: JsonValue) -> bool {
    bool_field(v, "found"@) == Some(true)
}

/// Reads the reply of the click or type script: success when the element was
/// found, a failed lookup otherwise.
pub fn found_reply(value: &JsonValue, selector: &str) -> (r: Result<(), KhoraError>)
    ensures
        found(*value) ==> r is Ok,
        !found(*value) ==> (r matches Err(e) && reports(e, failure_of(*value, selector@), selector@)),
{
    if get_bool(value, "found") == Some(true) {
        Ok(())
    } else {
        Err(lookup_failure(value, selector))
    }
}

/// Reads the reply of the attribute script: the attribute's value (`None`
/// when the element lacks it) once the element was found.
pub fn attribute_reply(value: &JsonValue, selector: &str) -> (r: Result<Option<String>, KhoraError>)
    ensures
        found(*value) ==> (r matches Ok(a) && match a {
            Some(s) => str_field(*value, "value"@) == Some(s@),
            None => str_field(*value, "value"@) is None,
        }),
        !found(*value) ==> (r matches Err(e) && reports(e, failure_of(*value, selector@), selector@)),
{
    if get_bool(value, "found") != Some(true) {
        return Err(lookup_failure(value, selector));
    }
    match get_str(value, "value") {
        Some(s) => Ok(Some(s.clone())),
        None => Ok(None),
    }
}

/// The strings among a list of values, in order.
pub open spec fn strings_of(items: Seq<JsonValue>) -> Seq<Seq<char>>
    decreases items.len(),
{
    if items.len() == 0 {
        Seq::empty()
    } else {
        let rest = strings_of(items.drop_last());
        match items.last() {
            JsonValue::Str(s) => rest.push(s@),
            _ => rest,
        }
    }
}

/// A list whose items are all strings gives one text per item, in order,
/// each equal to the item's string, empty or not.
pub proof fn lemma_every_string_item_kept(items: Seq<JsonValue>)
    requires
        forall|i: int| 0 <= i < items.len() ==> #[trigger] items[i] is Str,
    ensures
        strings_of(items).len() == items.len(),
        forall|i: int|
            0 <= i < items.len() ==> (#[trigger] items[i] matches JsonValue::Str(s) && strings_of(items)[i] == s@),
    decreases items.len(),
{
    if items.len() > 0 {
        let init = items.drop_last();
        assert forall|i: int| 0 <= i < init.len() implies #[trigger] init[i] is Str by {
            assert(init[i] == items[i]);
        }
        lemma_every_string_item_kept(init);
        assert forall|i: int| 0 <= i < items.len() implies (#[trigger] items[i] matches JsonValue::Str(s)
            && strings_of(items)[i] == s@) by {
            if i < init.len() {
                assert(init[i] == items[i]);
            }
        }
    }
}

/// Appending a string item appends its text, whatever it holds (the empty
/// string included); appending any other item changes nothing.
pub proof fn lemma_strings_of_push(items: Seq<JsonValue>, v: JsonValue)
    ensures
        strings_of(items.push(v)) == (match v {
            JsonValue::Str(s) => strings_of(items).push(s@),
            _ => strings_of(items),
        }),
{
    assert(items.push(v).drop_last() =~= items);
}

/// Reads the reply of the text script: the string items of a list; `null`
/// is a missing element, an object a failed lookup, and any other single value
/// its JSON text.
pub fn text_reply(value: &JsonValue, selector: &str) -> (r: Result<Vec<String>, KhoraError>)
    ensures
        match *value {
            JsonValue::Array(items) => r matches Ok(ts) && ts@.map_values(|t: String| t@)
                == strings_of(items@),
            JsonValue::Null => r matches Err(e) && reports(e, None, selector@),
            JsonValue::Object(_) => r matches Err(e) && reports(
                e,
                failure_of(*value, selector@),
                selector@,
            ),
            JsonValue::Bool(b) => r matches Ok(ts) && ts@.map_values(|t: String| t@) == seq![
                bool_text(b),
            ],
            JsonValue::Number(n) => r matches Ok(ts) && ts@.map_values(|t: String| t@) == seq![
                n.text@,
            ],
            JsonValue::Str(s) => r matches Ok(ts) && ts@.map_values(|t: String| t@) == seq![
                json_quoted(s@),
            ],
        },
{
    match value {
        JsonValue::Array(items) => {
            let mut ts: Vec<String> = Vec::new();
            let mut i: usize = 0;
            while i < items.len()
                invariant
                    i <= items@.len(),
                    ts@.map_values(|t: String| t@) == strings_of(items@.take(i as int)),
                decreases items.len() - i,
            {
                let ghost before = ts@;
                assert(items@.take(i + 1).drop_last() =~= items@.take(i as int));
                assert(items@.take(i + 1).last() == items@[i as int]);
                match &items[i] {
                    JsonValue::Str(s) => {
                        ts.push(s.clone());
                        assert(ts@.map_values(|t: String| t@) =~= before.map_values(
                            |t: String| t@,
                        ).push(s@));
                    },
                    _ => {},
                }
                i = i + 1;
            }
            assert(items@.take(i as int) =~= items@);
            Ok(ts)
        },
        JsonValue::Null => Err(KhoraError::ElementNotFound(String::from_str(selector))),
        JsonValue::Object(_) => Err(lookup_failure(value, selector)),
        JsonValue::Bool(b) => {
            let t = if *b {
                String::from_str("true")
            } else {
                String::from_str("false")
            };
            let ts = vec![t];
            assert(ts@.map_values(|t: String| t@) =~= seq![bool_text(*b)]);
            Ok(ts)
        },
        JsonValue::Number(n) => {
            let ts = vec![n.text.clone()];
            assert(ts@.map_values(|t: String| t@) =~= seq![n.text@]);
            Ok(ts)
        },
        JsonValue::Str(s) => {
            let ts = vec![json_quote(s.as_str())];
            assert(ts@.map_values(|t: String| t@) =~= seq![json_quoted(s@)]);
            Ok(ts)
        },
    }
}

/// Reads the reply of the clip script: a non-empty list means the element's
/// box is its first item (read by the caller); anything else is a failed
/// lookup.
pub fn clip_reply(value: &JsonValue, selector: &str) -> (r: Result<(), KhoraError>)
    ensures
        (*value matches JsonValue::Array(items) && items@.len() > 0) ==> r is Ok,
        !(*value matches JsonValue::Array(items) && items@.len() > 0) ==> (r matches Err(e)
            && reports(e, failure_of(*value, selector@), selector@)),
{
    match value {
        JsonValue::Array(items) => {
            if items.len() > 0 {
                Ok(())
            } else {
                Err(KhoraError::ElementNotFound(String::from_str(selector)))
            }
        },
        _ => Err(lookup_failure(value, selector)),
    }
}

/// The next move of a polling loop: stop with a result, or poll again after
/// the pause.
#[derive(Debug)]
pub enum Poll {
    Done(Result<(), KhoraError>),
    Again,
}

/// One round of `wait-for` (`gone` false) or `wait-gone` (`gone` true): a
/// refused selector ends the wait with a JavaScript error; the awaited state
/// (`found: true` or `gone: true`) ends it with success; otherwise it ends
/// with a timeout once `elapsed_ms` has reached `timeout_ms`, and goes on
/// before that.
pub fn wait_poll(value: &JsonValue, selector: &str, gone: bool, elapsed_ms: u64, timeout_ms: u64) -> (r: Poll)
    ensures
        match str_field(*value, "error"@) {
            Some(err) => r matches Poll::Done(Err(e)) && reports(
                e,
                Some(bad_selector_message(selector@, err)),
                selector@,
            ),
            None => if bool_field(*value, if gone {
                "gone"@
            } else {
                "found"@
            }) == Some(true) {
                r matches Poll::Done(Ok(()))
            } else if elapsed_ms >= timeout_ms {
                r matches Poll::Done(Err(KhoraError::Timeout(t))) && t == timeout_ms
            } else {
                r matches Poll::Again
            },
        },
{
    if get_str(value, "error").is_some() {
        return Poll::Done(Err(lookup_failure(value, selector)));
    }
    let key = if gone {
        "gone"
    } else {
        "found"
    };
    if get_bool(value, key) == Some(true) {
        return Poll::Done(Ok(()));
    }
    if elapsed_ms >= timeout_ms {
        return Poll::Done(Err(KhoraError::Timeout(timeout_ms)));
    }
    Poll::Again
}

/// Whether a `document.readyState` value means the page has loaded enough to
/// go on (`complete` or `interactive`).
pub open spec fn is_loaded(ready: Seq<char>) -> bool {
    ready == "complete"@ || ready == "interactive"@
}

/// One round of waiting for a navigation whose lifecycle events never came:
/// done once the ready state is `complete` or `interactive`, failed once
/// `elapsed_ms` reaches `timeout_ms`, otherwise poll again.
pub fn navigation_poll(ready: &str, elapsed_ms: u64, timeout_ms: u64) -> (r: Poll)
    ensures
        is_loaded(ready@) ==> r matches Poll::Done(Ok(())),
        !is_loaded(ready@) && elapsed_ms >= timeout_ms ==> (r matches Poll::Done(
            Err(KhoraError::NavigationFailed(m)),
        ) && m@ == "timed out waiting for page load"@),
        !is_loaded(ready@) && elapsed_ms < timeout_ms ==> r matches Poll::Again,
{
    if str_eq(ready, "complete") || str_eq(ready, "interactive") {
        return Poll::Done(Ok(()));
    }
    if elapsed_ms >= timeout_ms {
        return Poll::Done(
            Err(KhoraError::NavigationFailed(String::from_str("timed out waiting for page load"))),
        );
    }
    Poll::Again
}

// ---------------------------------------------------------------------------
// Choosing the page to work on
// ---------------------------------------------------------------------------

/// A page URL that shows content: not empty, not `about:blank` and not a
/// `chrome://` page.
pub open spec fn is_content_url(url: Seq<char>) -> bool {
    url != "about:blank"@ && url.len() > 0 && !("chrome://"@.is_prefix_of(url))
}

/// Whether `url` shows content (see `is_content_url`).
pub fn content_url(url: &str) -> (r: bool)
    ensures
        r == is_content_url(url@),
{
    let v = chars_of(url);
    let p = chars_of("chrome://");
    let mut prefixed = v.len() >= p.len();
    let mut i: usize = 0;
    while prefixed && i < p.len()
        invariant
            i <= p@.len(),
            p@ == "chrome://"@,
            v@ == url@,
            prefixed ==> v@.len() >= p@.len() && forall|j: int| 0 <= j < i ==> v@[j] == p@[j],
            !prefixed ==> !(p@.is_prefix_of(v@)),
        decreases p.len() - i,
    {
        if v[i] != p[i] {
            prefixed = false;
        }
        i = i + 1;
    }
    !str_eq(url, "about:blank") && v.len() > 0 && !prefixed
}

/// The index of the first URL that shows content, if any.
pub open spec fn first_content(urls: Seq<Option<String>>) -> Option<int>
    decreases urls.len(),
{
    if urls.len() == 0 {
        None
    } else {
        match first_content(urls.drop_last()) {
            Some(i) => Some(i),
            None => match urls.last() {
                Some(u) => if is_content_url(u@) {
                    Some(urls.len() - 1)
                } else {
                    None
                },
                None => None,
            },
        }
    }
}

/// The first page whose URL shows content; a page whose URL could not be
/// read (`None`) is passed over.
pub fn first_content_page(urls: &Vec<Option<String>>) -> (r: Option<usize>)
    ensures
        match r {
            Some(i) => first_content(urls@) == Some(i as int),
            None => first_content(urls@) is None,
        },
{
    let mut i: usize = 0;
    assert(urls@.take(0) =~= Seq::<Option<String>>::empty());
    while i < urls.len()
        invariant
            i <= urls@.len(),
            first_content(urls@.take(i as int)) is None,
        decreases urls.len() - i,
    {
        assert(urls@.take(i + 1).drop_last() =~= urls@.take(i as int));
        let hit = match &urls[i] {
            Some(u) => content_url(u.as_str()),
            None => false,
        };
        if hit {
            proof {
                lemma_first_content_prefix(urls@, i as int + 1);
            }
            return Some(i);
        }
        i = i + 1;
    }
    assert(urls@.take(i as int) =~= urls@);
    None
}

/// A content page found in a prefix is the first of the whole list.
pub proof fn lemma_first_content_prefix(urls: Seq<Option<String>>, k: int)
    requires
        0 <= k <= urls.len(),
        first_content(urls.take(k)) is Some,
    ensures
        first_content(urls) == first_content(urls.take(k)),
    decreases urls.len() - k,
{
    if k < urls.len() {
        assert(urls.take(k + 1).drop_last() =~= urls.take(k));
        lemma_first_content_prefix(urls, k + 1);
    } else {
        assert(urls.take(k) =~= urls);
    }
}

/// The page to work on when no target URL shows content: the first page whose
/// current `location.href` shows content, else the first page.
pub fn fallback_page(hrefs: &Vec<Option<String>>) -> (r: usize)
    ensures
        match first_content(hrefs@) {
            Some(i) => r == i,
            None => r == 0,
        },
{
    match first_content_page(hrefs) {
        Some(i) => i,
        None => 0,
    }
}

} // verus!
