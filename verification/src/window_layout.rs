//! Window geometry and colours: background colours, default and minimum
//! window sizes, and the native resize border of frameless windows (hit
//! testing and the record of replaced window procedures).

use vstd::prelude::*;
use std::collections::HashMap;
use crate::text::str_equal;

verus! {

broadcast use vstd::std_specs::hash::group_hash_axioms;

/// An 8-bit RGBA colour.
#[derive(Clone, Copy, Debug, PartialEq, Eq)]
pub struct Color(pub u8, pub u8, pub u8, pub u8);

/// The nearly transparent colour painted behind transparent windows.
pub open spec fn transparent_backdrop() -> Color {
    Color(0x01, 0x00, 0x00, 0x00)
}

/// The value of a hexadecimal digit.
pub open spec fn hex_digit_value(c: char) -> Option<nat> {
    if '0' <= c && c <= '9' {
        Some((c as nat - 48) as nat)
    } else if 'a' <= c && c <= 'f' {
        Some((c as nat - 87) as nat)
    } else if 'A' <= c && c <= 'F' {
        Some((c as nat - 55) as nat)
    } else {
        None
    }
}

/// The value of a string of hexadecimal digits (`None` if one is not a digit).
pub open spec fn hex_value(digits: Seq<char>) -> Option<nat>
    decreases digits.len(),
{
    if digits.len() == 0 {
        Some(0)
    } else {
        match (hex_value(digits.drop_last()), hex_digit_value(digits.last())) {
            (Some(high), Some(low)) => Some(high * 16 + low),
            _ => None,
        }
    }
}

/// `u32::from_str_radix(s, 16)` for the strings `parse_color` hands it: an
/// optional `+` sign and then at least one hexadecimal digit.
pub open spec fn radix16_value(s: Seq<char>) -> Option<nat> {
    let digits = if s.len() > 0 && s[0] == '+' {
        s.drop_first()
    } else {
        s
    };
    if digits.len() == 0 {
        None
    } else {
        hex_value(digits)
    }
}

/// `s` without its leading `#` characters.
pub open spec fn strip_hashes(s: Seq<char>) -> Seq<char>
    decreases s.len(),
{
    if s.len() > 0 && s[0] == '#' {
        strip_hashes(s.drop_first())
    } else {
        s
    }
}

/// The colour written `#rrggbb` (any number of leading `#`), opaque; `None`
/// unless exactly six bytes follow the `#`s and they read as a hexadecimal
/// number.
pub open spec fn color_of_hex(hex: Seq<char>) -> Option<Color> {
    let t = strip_hashes(hex);
    if vstd::utf8::encode_utf8(t).len() != 6 {
        None
    } else {
        match radix16_value(t) {
            Some(v) => Some(Color((v / 65536 % 256) as u8, (v / 256 % 256) as u8, (v % 256) as u8, 0xff)),
            None => None,
        }
    }
}

fn hex_digit(c: char) -> (res: Option<u32>)
    ensures
        match hex_digit_value(c) {
            Some(v) => res == Some(v as u32),
            None => res is None,
        },
{
    if '0' <= c && c <= '9' {
        Some(c as u32 - 48)
    } else if 'a' <= c && c <= 'f' {
        Some(c as u32 - 87)
    } else if 'A' <= c && c <= 'F' {
        Some(c as u32 - 55)
    } else {
        None
    }
}

spec fn pow16(k: nat) -> nat
    decreases k,
{
    if k == 0 {
        1
    } else {
        16 * pow16((k - 1) as nat)
    }
}

proof fn lemma_pow16_small(k: nat)
    requires
        k <= 6,
    ensures
        pow16(k) <= 16777216,
{
    reveal_with_fuel(pow16, 7);
}

proof fn lemma_hex_value_bound(digits: Seq<char>)
    requires
        hex_value(digits) is Some,
    ensures
        hex_value(digits).unwrap() < pow16(digits.len()),
    decreases digits.len(),
{
    if digits.len() > 0 {
        lemma_hex_value_bound(digits.drop_last());
        let high = hex_value(digits.drop_last()).unwrap();
        let p = pow16((digits.len() - 1) as nat);
        assert(high * 16 + 15 < p * 16) by (nonlinear_arith)
            requires
                high < p,
        ;
    }
}

/// Reads `#rrggbb` as an opaque colour (`parse_color`).
pub fn parse_color(hex: &str) -> (res: Option<Color>)
    ensures
        res == color_of_hex(hex@),
{
    let n = hex.unicode_len();
    let mut a: usize = 0;
    assert(hex@.subrange(0, n as int) =~= hex@);
    while a < n && hex.get_char(a) == '#'
        invariant
            n == hex@.len(),
            a <= n,
            strip_hashes(hex@) == strip_hashes(hex@.subrange(a as int, n as int)),
        decreases n - a,
    {
        assert(hex@.subrange(a as int, n as int).drop_first() =~= hex@.subrange(a + 1, n as int));
        a = a + 1;
    }
    let rest = hex.substring_char(a, n);
    assert(strip_hashes(hex@) == rest@) by {
        if a == n {
            assert(rest@ =~= Seq::<char>::empty());
        }
    }
    if rest.as_bytes().len() != 6 {
        return None;
    }
    let m = rest.unicode_len();
    proof {
        lemma_utf8_len_at_least_chars(rest@);
    }
    let mut i: usize = 0;
    if m > 0 && rest.get_char(0) == '+' {
        i = 1;
    }
    let ghost digits = rest@.subrange(i as int, m as int);
    assert(digits =~= (if rest@.len() > 0 && rest@[0] == '+' {
        rest@.drop_first()
    } else {
        rest@
    }));
    if i == m {
        return None;
    }
    let start = i;
    let mut value: u32 = 0;
    assert(rest@.subrange(start as int, start as int) =~= Seq::<char>::empty());
    while i < m
        invariant
            start <= i <= m,
            m == rest@.len(),
            m <= 6,
            hex_value(rest@.subrange(start as int, i as int)) == Some(value as nat),
            value < pow16((i - start) as nat),
            i - start <= 6,
            digits == rest@.subrange(start as int, m as int),
            digits.len() > 0,
            radix16_value(rest@) == hex_value(digits),
            rest@ == strip_hashes(hex@),
        decreases m - i,
    {
        let d = match hex_digit(rest.get_char(i)) {
            Some(d) => d,
            None => {
                proof {
                    let pre = rest@.subrange(start as int, i + 1);
                    assert(pre.drop_last() =~= rest@.subrange(start as int, i as int));
                    assert(hex_value(pre) is None);
                    lemma_hex_value_prefix_none(digits, (i + 1 - start) as int);
                    assert(digits.subrange(0, (i + 1 - start) as int) =~= pre);
                }
                return None;
            },
        };
        proof {
            let pre = rest@.subrange(start as int, i + 1);
            assert(pre.drop_last() =~= rest@.subrange(start as int, i as int));
            lemma_hex_value_bound(pre);
            lemma_pow16_small((i - start) as nat);
        }
        value = value * 16 + d;
        i = i + 1;
    }
    proof {
        assert(rest@ == strip_hashes(hex@));
    }
    let r = (value / 65536 % 256) as u8;
    let g = (value / 256 % 256) as u8;
    let b = (value % 256) as u8;
    Some(Color(r, g, b, 0xff))
}

proof fn lemma_utf8_len_at_least_chars(s: Seq<char>)
    ensures
        vstd::utf8::encode_utf8(s).len() >= s.len(),
    decreases s.len(),
{
    if s.len() > 0 {
        lemma_utf8_len_at_least_chars(s.drop_first());
    }
}

proof fn lemma_hex_value_prefix_none(digits: Seq<char>, k: int)
    requires
        0 <= k <= digits.len(),
        hex_value(digits.subrange(0, k)) is None,
    ensures
        hex_value(digits) is None,
    decreases digits.len() - k,
{
    if k < digits.len() {
        let next = digits.subrange(0, k + 1);
        assert(next.drop_last() =~= digits.subrange(0, k));
        lemma_hex_value_prefix_none(digits, k + 1);
    } else {
        assert(digits.subrange(0, k) =~= digits);
    }
}

/// The background painted behind a window: the transparent backdrop, or the
/// given opaque colour (`fallback` should it not parse).
pub fn window_background(transparent: bool, opaque_hex: &str, fallback: Color) -> (res: Color)
    ensures
        res == if transparent {
            transparent_backdrop()
        } else {
            match color_of_hex(opaque_hex@) {
                Some(c) => c,
                None => fallback,
            }
        },
{
    if transparent {
        Color(0x01, 0x00, 0x00, 0x00)
    } else {
        match parse_color(opaque_hex) {
            Some(c) => c,
            None => fallback,
        }
    }
}

/// The size a window opens at before its size was ever saved, in logical
/// pixels, and whether it starts with a zoom factor of 1.
#[derive(Clone, Copy, Debug, PartialEq, Eq)]
pub struct WindowDefaults {
    pub width: u32,
    pub height: u32,
    pub has_unit_zoom: bool,
}

/// The default size of the window saved under `key`.
pub open spec fn window_defaults(key: Seq<char>) -> WindowDefaults {
    if key == "launcher"@ {
        WindowDefaults { width: 820, height: 620, has_unit_zoom: false }
    } else if key == "transparentContent"@ {
        WindowDefaults { width: 1320, height: 860, has_unit_zoom: true }
    } else if key == "mentalMath"@ {
        WindowDefaults { width: 760, height: 620, has_unit_zoom: false }
    } else if key == "pdfReader"@ {
        WindowDefaults { width: 760, height: 680, has_unit_zoom: false }
    } else if key == "vocabulary"@ {
        WindowDefaults { width: 1100, height: 760, has_unit_zoom: false }
    } else {
        WindowDefaults { width: 900, height: 700, has_unit_zoom: false }
    }
}

/// The default size of the window saved under `key` (`default_window_state`).
pub fn default_window_state(key: &str) -> (res: WindowDefaults)
    ensures
        res == window_defaults(key@),
{
    if str_equal(key, "launcher") {
        WindowDefaults { width: 820, height: 620, has_unit_zoom: false }
    } else if str_equal(key, "transparentContent") {
        WindowDefaults { width: 1320, height: 860, has_unit_zoom: true }
    } else if str_equal(key, "mentalMath") {
        WindowDefaults { width: 760, height: 620, has_unit_zoom: false }
    } else if str_equal(key, "pdfReader") {
        WindowDefaults { width: 760, height: 680, has_unit_zoom: false }
    } else if str_equal(key, "vocabulary") {
        WindowDefaults { width: 1100, height: 760, has_unit_zoom: false }
    } else {
        WindowDefaults { width: 900, height: 700, has_unit_zoom: false }
    }
}

/// The keys the window sizes are saved under, one per window.
pub open spec fn window_state_keys() -> Seq<Seq<char>> {
    seq!["launcher"@, "transparentContent"@, "mentalMath"@, "pdfReader"@, "vocabulary"@]
}

/// The saved window states of a fresh installation: every window's key with
/// its default size, in the order of `window_state_keys`. Loading fills in
/// any of them that a settings file lacks.
pub fn default_window_states() -> (res: Vec<(String, WindowDefaults)>)
    ensures
        res@.len() == window_state_keys().len(),
        forall|i: int|
            0 <= i < res@.len() ==> (#[trigger] res@[i]).0@ == window_state_keys()[i] && res@[i].1
                == window_defaults(window_state_keys()[i]),
{
    let mut res: Vec<(String, WindowDefaults)> = Vec::new();
    let keys = ["launcher", "transparentContent", "mentalMath", "pdfReader", "vocabulary"];
    assert(keys@.len() == 5);
    let mut i: usize = 0;
    while i < 5
        invariant
            i <= 5,
            keys@.len() == 5,
            forall|j: int| 0 <= j < 5 ==> (#[trigger] keys@[j])@ == window_state_keys()[j],
            res@.len() == i,
            forall|j: int|
                0 <= j < i ==> (#[trigger] res@[j]).0@ == window_state_keys()[j] && res@[j].1
                    == window_defaults(window_state_keys()[j]),
        decreases 5 - i,
    {
        let key = keys[i];
        res.push((String::from_str(key), default_window_state(key)));
        i = i + 1;
    }
    res
}

/// The keys of `keys` that are not among `stored`, in order.
pub open spec fn missing_keys(keys: Seq<Seq<char>>, stored: Seq<Seq<char>>) -> Seq<Seq<char>>
    decreases keys.len(),
{
    if keys.len() == 0 {
        seq![]
    } else {
        let rest = missing_keys(keys.drop_last(), stored);
        if stored.contains(keys.last()) {
            rest
        } else {
            rest.push(keys.last())
        }
    }
}

/// Every key of `keys` is stored already or among the missing ones.
pub proof fn lemma_missing_keys_complete(keys: Seq<Seq<char>>, stored: Seq<Seq<char>>, k: Seq<char>)
    requires
        keys.contains(k),
    ensures
        stored.contains(k) || missing_keys(keys, stored).contains(k),
    decreases keys.len(),
{
    let rest = missing_keys(keys.drop_last(), stored);
    if keys.last() == k {
        if !stored.contains(k) {
            assert(rest.push(k)[rest.len() as int] == k);
        }
    } else {
        let i = choose|i: int| 0 <= i < keys.len() && keys[i] == k;
        assert(keys.drop_last()[i] == k);
        lemma_missing_keys_complete(keys.drop_last(), stored, k);
        if !stored.contains(k) {
            let j = choose|j: int| 0 <= j < rest.len() && rest[j] == k;
            if !stored.contains(keys.last()) {
                assert(rest.push(keys.last())[j] == k);
            }
        }
    }
}

/// The characters of each stored string.
pub open spec fn key_views(stored: Seq<String>) -> Seq<Seq<char>> {
    stored.map_values(|s: String| s@)
}

fn is_stored(stored: &Vec<String>, key: &str) -> (res: bool)
    ensures
        res == key_views(stored@).contains(key@),
{
    let mut i: usize = 0;
    while i < stored.len()
        invariant
            i <= stored@.len(),
            forall|j: int| 0 <= j < i ==> key_views(stored@)[j] != key@,
        decreases stored.len() - i,
    {
        if str_equal(stored[i].as_str(), key) {
            assert(key_views(stored@)[i as int] == key@);
            return true;
        }
        i = i + 1;
    }
    false
}

/// The default states of the windows whose key is not among the `stored`
/// keys, in the order of `window_state_keys` (loading fills these in).
pub fn missing_window_states(stored: &Vec<String>) -> (res: Vec<(String, WindowDefaults)>)
    ensures
        res@.len() == missing_keys(window_state_keys(), key_views(stored@)).len(),
        forall|i: int|
            0 <= i < res@.len() ==> (#[trigger] res@[i]).0@ == missing_keys(
                window_state_keys(),
                key_views(stored@),
            )[i] && res@[i].1 == window_defaults(res@[i].0@),
{
    let ghost keys = window_state_keys();
    let ghost sv = key_views(stored@);
    let all = default_window_states();
    let mut res: Vec<(String, WindowDefaults)> = Vec::new();
    let mut i: usize = 0;
    assert(keys.subrange(0, 0) =~= Seq::<Seq<char>>::empty());
    while i < all.len()
        invariant
            all@.len() == keys.len(),
            keys == window_state_keys(),
            sv == key_views(stored@),
            forall|j: int|
                0 <= j < all@.len() ==> (#[trigger] all@[j]).0@ == keys[j] && all@[j].1
                    == window_defaults(keys[j]),
            i <= all@.len(),
            res@.len() == missing_keys(keys.subrange(0, i as int), sv).len(),
            forall|j: int|
                0 <= j < res@.len() ==> (#[trigger] res@[j]).0@ == missing_keys(
                    keys.subrange(0, i as int),
                    sv,
                )[j] && res@[j].1 == window_defaults(res@[j].0@),
        decreases all.len() - i,
    {
        let key = &all[i].0;
        let defaults = all[i].1;
        proof {
            assert(keys.subrange(0, i + 1).drop_last() =~= keys.subrange(0, i as int));
            assert(keys.subrange(0, i + 1).last() == keys[i as int]);
        }
        if !is_stored(stored, key.as_str()) {
            res.push((key.clone(), defaults));
        }
        i = i + 1;
    }
    assert(keys.subrange(0, keys.len() as int) =~= keys);
    res
}

/// The smallest size a saved window is restored at.
pub open spec fn window_min_size(key: Seq<char>) -> (u32, u32) {
    if key == "launcher"@ {
        (420, 380)
    } else if key == "transparentContent"@ {
        (120, 120)
    } else if key == "mentalMath"@ {
        (320, 240)
    } else if key == "pdfReader"@ {
        (400, 300)
    } else {
        (320, 240)
    }
}

/// The smallest size the window saved under `key` is restored at (the
/// bounds `load_window_state` applies).
pub fn restored_window_min_size(key: &str) -> (res: (u32, u32))
    ensures
        res == window_min_size(key@),
{
    if str_equal(key, "launcher") {
        (420, 380)
    } else if str_equal(key, "transparentContent") {
        (120, 120)
    } else if str_equal(key, "mentalMath") {
        (320, 240)
    } else if str_equal(key, "pdfReader") {
        (400, 300)
    } else {
        (320, 240)
    }
}

/// A 16-bit field read as a signed number.
pub open spec fn signed16(n: int) -> int {
    if n >= 32768 {
        n - 65536
    } else {
        n
    }
}

/// The cursor position packed in a window message's `lParam`: x in the low
/// 16 bits and y in the next 16, both signed.
pub open spec fn lparam_point(value: int) -> (int, int) {
    (signed16(value % 65536), signed16((value / 65536) % 65536))
}

/// The cursor position of a window message (see `lparam_point`).
pub fn point_from_lparam(value: isize) -> (res: (i32, i32))
    ensures
        res.0 == lparam_point(value as int).0,
        res.1 == lparam_point(value as int).1,
{
    let v = value as i64;
    let low = v & 0xffff;
    let high = (v >> 16) & 0xffff;
    assert(low == v % 65536) by (bit_vector)
        requires
            low == v & 0xffff,
    ;
    assert(high == (v / 65536) % 65536) by (bit_vector)
        requires
            high == (v >> 16) & 0xffff,
    ;
    let x: i32 = if low >= 32768 {
        (low - 65536) as i32
    } else {
        low as i32
    };
    let y: i32 = if high >= 32768 {
        (high - 65536) as i32
    } else {
        high as i32
    };
    (x, y)
}

/// The enlarged-resize-border switch that the native hit test reads.
pub struct ResizeZone {
    pub expanded: bool,
}

impl ResizeZone {
    /// Starts with the enlarged border on.
    pub fn new() -> (zone: Self)
        ensures
            zone.expanded,
    {
        ResizeZone { expanded: true }
    }

    /// Records the current setting (`sync_resize_zone_setting`).
    pub fn sync_resize_zone_setting(&mut self, expanded: bool)
        ensures
            final(self).expanded == expanded,
    {
        self.expanded = expanded;
    }

    /// The resize border, from the system's frame and padding metrics: at
    /// least 6 pixels, and at least 12 while the enlarged border is on
    /// (`resize_border_metrics`).
    pub fn resize_border_metrics(&self, frame_x: i32, frame_y: i32, padding: i32) -> (res: (i32, i32))
        requires
            i32::MIN <= frame_x + padding <= i32::MAX,
            i32::MIN <= frame_y + padding <= i32::MAX,
        ensures
            res.0 == border_width(frame_x + padding, self.expanded),
            res.1 == border_width(frame_y + padding, self.expanded),
    {
        let base_x = if frame_x + padding > 6 {
            frame_x + padding
        } else {
            6
        };
        let base_y = if frame_y + padding > 6 {
            frame_y + padding
        } else {
            6
        };
        if self.expanded {
            (if base_x > 12 {
                base_x
            } else {
                12
            }, if base_y > 12 {
                base_y
            } else {
                12
            })
        } else {
            (base_x, base_y)
        }
    }
}

/// The resize border for a metric of `metric` pixels.
pub open spec fn border_width(metric: int, expanded: bool) -> int {
    let base = if metric > 6 {
        metric
    } else {
        6
    };
    if expanded && base < 12 {
        12
    } else {
        base
    }
}

/// A window's outer rectangle in screen pixels.
#[derive(Clone, Copy, Debug, PartialEq, Eq)]
pub struct WindowRect {
    pub left: i32,
    pub top: i32,
    pub right: i32,
    pub bottom: i32,
}

/// The parts of a frameless window's border that resize it.
#[derive(Clone, Copy, Debug, PartialEq, Eq)]
pub enum HitZone {
    TopLeft,
    TopRight,
    BottomLeft,
    BottomRight,
    Top,
    Bottom,
    Left,
    Right,
}

/// Which border zone the point (x, y) falls in, corners first, then the top
/// and bottom edges, then the sides; `None` inside the client area.
pub open spec fn hit_zone(rect: WindowRect, x: int, y: int, bx: int, by: int) -> Option<HitZone> {
    let left = x < rect.left + bx;
    let right = x >= rect.right - bx;
    let top = y < rect.top + by;
    let bottom = y >= rect.bottom - by;
    if left && top {
        Some(HitZone::TopLeft)
    } else if right && top {
        Some(HitZone::TopRight)
    } else if left && bottom {
        Some(HitZone::BottomLeft)
    } else if right && bottom {
        Some(HitZone::BottomRight)
    } else if top {
        Some(HitZone::Top)
    } else if bottom {
        Some(HitZone::Bottom)
    } else if left {
        Some(HitZone::Left)
    } else if right {
        Some(HitZone::Right)
    } else {
        None
    }
}

/// The border zone under the cursor (the decision of `nc_hit_test`).
pub fn nc_hit_test(rect: WindowRect, x: i32, y: i32, border_x: i32, border_y: i32) -> (res: Option<
    HitZone,
>)
    ensures
        res == hit_zone(rect, x as int, y as int, border_x as int, border_y as int),
{
    let left = (x as i64) < rect.left as i64 + border_x as i64;
    let right = (x as i64) >= rect.right as i64 - border_x as i64;
    let top = (y as i64) < rect.top as i64 + border_y as i64;
    let bottom = (y as i64) >= rect.bottom as i64 - border_y as i64;
    if left && top {
        Some(HitZone::TopLeft)
    } else if right && top {
        Some(HitZone::TopRight)
    } else if left && bottom {
        Some(HitZone::BottomLeft)
    } else if right && bottom {
        Some(HitZone::BottomRight)
    } else if top {
        Some(HitZone::Top)
    } else if bottom {
        Some(HitZone::Bottom)
    } else if left {
        Some(HitZone::Left)
    } else if right {
        Some(HitZone::Right)
    } else {
        None
    }
}

/// The window procedures replaced by the resize hook, by window handle.
pub struct NativeResizeProcMap {
    pub procs: HashMap<isize, isize>,
}

/// An empty record of replaced window procedures (`native_resize_proc_map`).
pub fn native_resize_proc_map() -> (map: NativeResizeProcMap)
    ensures
        map.procs@ == Map::<isize, isize>::empty(),
{
    NativeResizeProcMap { procs: HashMap::new() }
}

impl NativeResizeProcMap {
    /// Whether the window still needs the hook (it is not recorded yet).
    pub fn needs_hook(&self, hwnd: isize) -> (res: bool)
        ensures
            res == !self.procs@.contains_key(hwnd),
    {
        !self.procs.contains_key(&hwnd)
    }

    /// Records the procedure the hook replaced, when there was one (the
    /// bookkeeping of `install_native_resize_hit_test`): nothing is recorded
    /// for a window already hooked or whose previous procedure is null.
    pub fn record_hook(&mut self, hwnd: isize, original: isize, replaced: isize)
        ensures
            final(self).procs@ == if old(self).procs@.contains_key(hwnd) || original == 0 || !(
            replaced != 0 || original != 0) {
                old(self).procs@
            } else {
                old(self).procs@.insert(hwnd, original)
            },
    {
        if self.procs.contains_key(&hwnd) || original == 0 {
            return;
        }
        if replaced != 0 || original != 0 {
            self.procs.insert(hwnd, original);
        }
    }

    /// The procedure to hand the message on to: the recorded one, or 0 when
    /// there is none (then the default procedure answers).
    pub fn original_proc(&self, hwnd: isize) -> (res: isize)
        ensures
            res == if self.procs@.contains_key(hwnd) {
                self.procs@[hwnd]
            } else {
                0
            },
    {
        match self.procs.get(&hwnd) {
            Some(p) => *p,
            None => 0,
        }
    }
}

} // verus!
