use vstd::prelude::*;
use vstd::string::*;
use crate::text::{
    chars_of, debug_str, debug_text, dec, find_char, lemma_dec, lemma_find_char,
    lemma_find_char_at, lemma_parse_dec, parse_unsigned, parse_unsigned_str, push_dec,
    string_from,
};

verus! {

/// A browser window or viewport size in CSS pixels, written `WxH`.
#[derive(Clone, Copy, Debug, PartialEq, Eq, Structural)]
pub struct WindowSize {
    pub width: u32,
    pub height: u32,
}

/// What parsing `WxH` gives: the two dimensions, or the error message.
/// The text is split at its first `x`; each side must parse as a `u32` and
/// both must be positive.
pub open spec fn parse_window_size_spec(s: Seq<char>) -> Result<(u32, u32), Seq<char>> {
    match find_char(s, 'x') {
        None => Err("expected WxH (e.g. 1920x1080), got: "@ + s),
        Some(i) => {
            let w = s.take(i);
            let h = s.skip(i + 1);
            match parse_unsigned(w, u32::MAX as nat) {
                None => Err("invalid width: "@ + w),
                Some(wv) => match parse_unsigned(h, u32::MAX as nat) {
                    None => Err("invalid height: "@ + h),
                    Some(hv) => if wv == 0 || hv == 0 {
                        Err("dimensions must be > 0, got: "@ + dec(wv) + "x"@ + dec(hv))
                    } else {
                        Ok((wv as u32, hv as u32))
                    },
                },
            }
        },
    }
}

/// The `WxH` rendering of a size.
pub open spec fn window_size_text(w: WindowSize) -> Seq<char> {
    dec(w.width as nat) + "x"@ + dec(w.height as nat)
}

/// The index of the first `c` in `v`, if any.
fn find_in(v: &Vec<char>, c: char) -> (r: Option<usize>)
    ensures
        match r {
            Some(i) => find_char(v@, c) == Some(i as int) && i < v@.len(),
            None => find_char(v@, c) is None,
        },
{
    let mut i: usize = 0;
    while i < v.len()
        invariant
            i <= v@.len(),
            forall|j: int| 0 <= j < i ==> v@[j] != c,
        decreases v.len() - i,
    {
        if v[i] == c {
            proof {
                lemma_find_char_at(v@, c, i as int);
            }
            return Some(i);
        }
        i = i + 1;
    }
    proof {
        lemma_find_char(v@, c);
        match find_char(v@, c) {
            Some(k) => {
                assert(v@[k] != c);
            },
            None => {},
        }
    }
    None
}

impl WindowSize {
    /// Parses `WxH` (e.g. `1920x1080`): positive integer width and height
    /// separated by a lower-case `x`.
    pub fn parse(s: &str) -> (r: Result<WindowSize, String>)
        ensures
            match r {
                Ok(w) => parse_window_size_spec(s@) == Ok::<(u32, u32), Seq<char>>(
                    (w.width, w.height),
                ),
                Err(e) => parse_window_size_spec(s@) == Err::<(u32, u32), Seq<char>>(e@),
            },
    {
        let v = chars_of(s);
        let i = match find_in(&v, 'x') {
            None => {
                let mut m = String::from_str("expected WxH (e.g. 1920x1080), got: ");
                m.append(s);
                return Err(m);
            },
            Some(i) => i,
        };
        let w = string_from(&v, 0, i);
        let h = string_from(&v, i + 1, v.len());
        assert(w@ =~= s@.take(i as int));
        assert(h@ =~= s@.skip(i + 1));
        let wv = match parse_unsigned_str(w.as_str(), 0xffff_ffffu64) {
            None => {
                let mut m = String::from_str("invalid width: ");
                m.append(w.as_str());
                return Err(m);
            },
            Some(x) => x,
        };
        let hv = match parse_unsigned_str(h.as_str(), 0xffff_ffffu64) {
            None => {
                let mut m = String::from_str("invalid height: ");
                m.append(h.as_str());
                return Err(m);
            },
            Some(x) => x,
        };
        if wv == 0 || hv == 0 {
            let mut m = String::from_str("dimensions must be > 0, got: ");
            push_dec(&mut m, wv as u128);
            m.append("x");
            push_dec(&mut m, hv as u128);
            return Err(m);
        }
        Ok(WindowSize { width: wv as u32, height: hv as u32 })
    }

    /// The `WxH` rendering of this size.
    pub fn to_string(&self) -> (r: String)
        ensures
            r@ == window_size_text(*self),
    {
        let mut r = String::new();
        push_dec(&mut r, self.width as u128);
        r.append("x");
        push_dec(&mut r, self.height as u128);
        r
    }
}

impl core::str::FromStr for WindowSize {
    type Err = String;

    fn from_str(s: &str) -> (r: Result<WindowSize, String>)
        ensures
            match r {
                Ok(w) => parse_window_size_spec(s@) == Ok::<(u32, u32), Seq<char>>(
                    (w.width, w.height),
                ),
                Err(e) => parse_window_size_spec(s@) == Err::<(u32, u32), Seq<char>>(e@),
            },
    {
        WindowSize::parse(s)
    }
}

/// Rendering a size with positive dimensions and parsing the text back gives
/// the same size.
pub proof fn lemma_window_size_round_trip(w: WindowSize)
    requires
        w.width > 0,
        w.height > 0,
    ensures
        parse_window_size_spec(window_size_text(w)) == Ok::<(u32, u32), Seq<char>>(
            (w.width, w.height),
        ),
{
    let a = dec(w.width as nat);
    let b = dec(w.height as nat);
    let s = window_size_text(w);
    lemma_dec(w.width as nat);
    lemma_dec(w.height as nat);
    reveal_strlit("x");
    assert(s[a.len() as int] == 'x');
    assert forall|j: int| 0 <= j < a.len() implies s[j] != 'x' by {
        assert(s[j] == a[j]);
    }
    lemma_find_char_at(s, 'x', a.len() as int);
    assert(s.take(a.len() as int) =~= a);
    assert(s.skip(a.len() as int + 1) =~= b);
    lemma_parse_dec(w.width as nat, u32::MAX as nat);
    lemma_parse_dec(w.height as nat, u32::MAX as nat);
}

/// The number of seconds one unit suffix stands for: `s`, `m` or `h`.
pub open spec fn duration_unit(c: char) -> Option<nat> {
    if c == 's' {
        Some(1)
    } else if c == 'm' {
        Some(60)
    } else if c == 'h' {
        Some(3600)
    } else {
        None
    }
}

/// What a duration such as `30s`, `15m` or `24h` parses to, in seconds, or
/// the error message. The number is a `u64` as `str::parse` reads it.
pub open spec fn parse_duration_spec(s: Seq<char>) -> Result<nat, Seq<char>> {
    if s.len() == 0 {
        Err("empty duration"@)
    } else {
        match duration_unit(s.last()) {
            None => Err("unsupported unit in "@ + debug_text(s) + " — use s, m, or h"@),
            Some(u) => {
                let num = s.drop_last();
                match parse_unsigned(num, u64::MAX as nat) {
                    None => Err("invalid number "@ + debug_text(num) + " in duration "@ + debug_text(s)),
                    Some(n) => Ok(n * u),
                }
            },
        }
    }
}

/// Whether the seconds a duration text stands for fit in a `u64` (a text
/// that does not parse counts as fitting).
pub open spec fn duration_fits(s: Seq<char>) -> bool {
    match parse_duration_spec(s) {
        Ok(v) => v <= u64::MAX,
        Err(_) => true,
    }
}

/// Parses a duration with an `s`, `m` or `h` suffix (e.g. `30m`) into
/// seconds.
pub fn parse_duration(s: &str) -> (r: Result<u64, String>)
    requires
        duration_fits(s@),
    ensures
        match r {
            Ok(v) => parse_duration_spec(s@) == Ok::<nat, Seq<char>>(v as nat),
            Err(e) => parse_duration_spec(s@) == Err::<nat, Seq<char>>(e@),
        },
{
    let v = chars_of(s);
    let n = v.len();
    if n == 0 {
        return Err(String::from_str("empty duration"));
    }
    let c = v[n - 1];
    let unit: u64 = if c == 's' {
        1
    } else if c == 'm' {
        60
    } else if c == 'h' {
        3600
    } else {
        let mut m = String::from_str("unsupported unit in ");
        m.append(debug_str(s).as_str());
        m.append(" — use s, m, or h");
        return Err(m);
    };
    let num = string_from(&v, 0, n - 1);
    assert(num@ =~= s@.drop_last());
    match parse_unsigned_str(num.as_str(), u64::MAX) {
        None => {
            let mut m = String::from_str("invalid number ");
            m.append(debug_str(num.as_str()).as_str());
            m.append(" in duration ");
            m.append(debug_str(s).as_str());
            Err(m)
        },
        Some(k) => Ok(k * unit),
    }
}

/// Whether the duration text `s` stands for more seconds than a `u64` holds.
pub fn duration_overflows(s: &str) -> (r: bool)
    ensures
        r == !duration_fits(s@),
{
    let v = chars_of(s);
    let n = v.len();
    if n == 0 {
        return false;
    }
    let c = v[n - 1];
    let unit: u64 = if c == 's' {
        1
    } else if c == 'm' {
        60
    } else if c == 'h' {
        3600
    } else {
        return false;
    };
    let num = string_from(&v, 0, n - 1);
    assert(num@ =~= s@.drop_last());
    match parse_unsigned_str(num.as_str(), u64::MAX) {
        None => false,
        Some(k) => k > u64::MAX / unit,
    }
}

/// A number followed by a unit suffix parses back to that many units, in
/// seconds.
pub proof fn lemma_duration_round_trip(n: u64, c: char)
    requires
        duration_unit(c) is Some,
    ensures
        parse_duration_spec(dec(n as nat).push(c)) == Ok::<nat, Seq<char>>(
            n as nat * duration_unit(c)->0,
        ),
{
    let s = dec(n as nat).push(c);
    assert(s.drop_last() =~= dec(n as nat));
    lemma_parse_dec(n as nat, u64::MAX as nat);
}

} // verus!
