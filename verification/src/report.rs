use vstd::prelude::*;
use vstd::string::*;
use crate::text::{dec, join, push_dec};

verus! {

/// The confirmation printed after a navigation.
pub fn navigated_message(url: &str, no_cache: bool) -> (r: String)
    ensures
        r@ == "Navigated to: "@ + url@ + (if no_cache {
            " (cache bypassed)"@
        } else {
            Seq::empty()
        }),
{
    let mut r = String::from_str("Navigated to: ");
    r.append(url);
    if no_cache {
        r.append(" (cache bypassed)");
    }
    r
}

/// The confirmation printed after a click.
pub fn clicked_message(selector: &str) -> (r: String)
    ensures
        r@ == "Clicked: "@ + selector@,
{
    let mut r = String::from_str("Clicked: ");
    r.append(selector);
    r
}

/// The confirmation printed after typing into an element.
pub fn typed_message(selector: &str, text: &str) -> (r: String)
    ensures
        r@ == "Typed \""@ + text@ + "\" into "@ + selector@,
{
    let mut r = String::from_str("Typed \"");
    r.append(text);
    r.append("\" into ");
    r.append(selector);
    r
}

/// The confirmation printed when a wait ends: `Found:` for `wait-for`,
/// `Gone:` for `wait-gone`.
pub fn waited_message(selector: &str, gone: bool) -> (r: String)
    ensures
        r@ == (if gone {
            "Gone: "@
        } else {
            "Found: "@
        }) + selector@,
{
    let mut r = if gone {
        String::from_str("Gone: ")
    } else {
        String::from_str("Found: ")
    };
    r.append(selector);
    r
}

/// The text printed for an attribute: its value, or `(null)` when absent.
pub fn attribute_text(value: Option<String>) -> (r: String)
    ensures
        r@ == match value {
            Some(v) => v@,
            None => "(null)"@,
        },
{
    match value {
        Some(v) => v,
        None => String::from_str("(null)"),
    }
}

/// The confirmation printed after saving a screenshot.
pub fn screenshot_message(path: &str, size: usize) -> (r: String)
    ensures
        r@ == "Screenshot saved: "@ + path@ + " ("@ + dec(size as nat) + " bytes)"@,
{
    let mut r = String::from_str("Screenshot saved: ");
    r.append(path);
    r.append(" (");
    push_dec(&mut r, size as u128);
    r.append(" bytes)");
    r
}

/// The status line for one session.
pub fn status_message(id: &str, alive: bool) -> (r: String)
    ensures
        r@ == "Session "@ + id@ + (if alive {
            " is alive"@
        } else {
            " is dead"@
        }),
{
    let mut r = String::from_str("Session ");
    r.append(id);
    if alive {
        r.append(" is alive");
    } else {
        r.append(" is dead");
    }
    r
}

/// The texts of a list of strings.
pub open spec fn id_texts(ids: Seq<String>) -> Seq<Seq<char>> {
    ids.map_values(|s: String| s@)
}

/// `ids` joined with `", "`.
fn joined_ids(ids: &Vec<String>) -> (r: String)
    ensures
        r@ == join(id_texts(ids@), ", "@),
{
    let ghost ts = id_texts(ids@);
    let mut r = String::new();
    let mut i: usize = 0;
    assert(ts.take(0) =~= Seq::<Seq<char>>::empty());
    while i < ids.len()
        invariant
            i <= ids@.len(),
            ts == id_texts(ids@),
            r@ == join(ts.take(i as int), ", "@),
        decreases ids.len() - i,
    {
        assert(ts.take(i + 1).drop_last() =~= ts.take(i as int));
        assert(ts.take(i + 1).last() == ids@[i as int]@);
        if i > 0 {
            r.append(", ");
        } else {
            assert(ts.take(0) =~= Seq::<Seq<char>>::empty());
        }
        r.append(ids[i].as_str());
        assert(r@ =~= join(ts.take(i + 1), ", "@));
        i = i + 1;
    }
    assert(ts.take(i as int) =~= ts);
    r
}

/// The summary printed by `kill`: `Killed session: <id>` for exactly one
/// session, else `Killed <n> sessions: <id>, <id>, ...`.
pub fn kill_summary(ids: &Vec<String>) -> (r: String)
    ensures
        ids@.len() == 1 ==> r@ == "Killed session: "@ + ids@[0]@,
        ids@.len() != 1 ==> r@ == "Killed "@ + dec(ids@.len()) + " sessions: "@ + join(
            id_texts(ids@),
            ", "@,
        ),
{
    if ids.len() == 1 {
        let mut r = String::from_str("Killed session: ");
        r.append(ids[0].as_str());
        r
    } else {
        let mut r = String::from_str("Killed ");
        push_dec(&mut r, ids.len() as u128);
        r.append(" sessions: ");
        r.append(joined_ids(ids).as_str());
        r
    }
}

/// The summary printed by `reap`: `reaped <n> sessions: <id>, <id>, ...`.
pub fn reap_summary(ids: &Vec<String>) -> (r: String)
    ensures
        r@ == "reaped "@ + dec(ids@.len()) + " sessions: "@ + join(id_texts(ids@), ", "@),
{
    let mut r = String::from_str("reaped ");
    push_dec(&mut r, ids.len() as u128);
    r.append(" sessions: ");
    r.append(joined_ids(ids).as_str());
    r
}

} // verus!
