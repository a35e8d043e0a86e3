//! User-facing settings: what the shell persists and shows.
use vstd::prelude::*;
use vstd::string::*;

verus! {

/// Where the key pop-up is shown.
#[derive(Clone, Debug)]
pub struct PopupPosition {
    /// Pixels from the left.
    pub x: i32,
    /// Pixels from the top.
    pub y: i32,
    /// The monitor, or the primary one when absent.
    pub monitor_id: Option<String>,
}

impl Default for PopupPosition {
    fn default() -> (r: Self)
        ensures
            r.x == 80,
            r.y == 500,
            r.monitor_id is None,
    {
        PopupPosition { x: 80, y: 500, monitor_id: None }
    }
}

/// The settings of the application.
#[derive(Clone, Debug)]
pub struct AppConfig {
    pub show_exit_confirm: bool,
    pub minimize_on_close: bool,
    pub recording_enabled: bool,
    pub autostart_enabled: bool,
    pub popup_position: PopupPosition,
}

impl Default for AppConfig {
    fn default() -> (r: Self)
        ensures
            r.show_exit_confirm,
            r.minimize_on_close,
            r.recording_enabled,
            !r.autostart_enabled,
            r.popup_position.x == 80,
            r.popup_position.y == 500,
            r.popup_position.monitor_id is None,
    {
        AppConfig {
            show_exit_confirm: true,
            minimize_on_close: true,
            recording_enabled: true,
            autostart_enabled: false,
            popup_position: PopupPosition::default(),
        }
    }
}

/// The settings together with the file they are kept in.
pub struct ConfigManager {
    config: AppConfig,
    config_path: String,
}

impl ConfigManager {
    pub closed spec fn spec_config(&self) -> AppConfig {
        self.config
    }

    pub closed spec fn spec_path(&self) -> Seq<char> {
        self.config_path@
    }

    /// Settings `config` kept in the file at `config_path`.
    pub fn from_config(config: AppConfig, config_path: String) -> (r: Self)
        ensures
            r.spec_config() == config,
            r.spec_path() == config_path@,
    {
        ConfigManager { config, config_path }
    }

    pub fn get_config(&self) -> (r: &AppConfig)
        ensures
            *r == self.spec_config(),
    {
        &self.config
    }

    /// Replaces the settings; the file stays.
    pub fn set_config(&mut self, config: AppConfig)
        ensures
            final(self).spec_config() == config,
            final(self).spec_path() == old(self).spec_path(),
    {
        self.config = config;
    }

    pub fn config_path(&self) -> (r: &String)
        ensures
            r@ == self.spec_path(),
    {
        &self.config_path
    }
}

/// A monitor name for display: the name given, or the primary monitor's.
pub fn id_or_default(id: Option<&str>) -> (r: &str)
    ensures
        id is Some ==> r@ == id->0@,
        id is None ==> r@ == "主显示器"@,
{
    match id {
        Some(s) => s,
        None => "主显示器",
    }
}

/// The numeric value of a string of decimal digits.
pub open spec fn digits_value(s: Seq<char>) -> nat
    decreases s.len(),
{
    if s.len() == 0 {
        0
    } else {
        digits_value(s.drop_last()) * 10 + (s.last() as nat - '0' as nat) as nat
    }
}

pub open spec fn all_digits(s: Seq<char>) -> bool {
    forall|i: int| 0 <= i < s.len() ==> '0' <= #[trigger] s[i] <= '9'
}

/// The monitor number an id of the form `monitor_<n>` names, when `n` is
/// below `count`.
pub open spec fn monitor_index_of(id: Seq<char>, count: nat) -> Option<nat> {
    let p = "monitor_"@;
    let rest = id.subrange(p.len() as int, id.len() as int);
    if id.len() > p.len() && id.subrange(0, p.len() as int) == p && all_digits(rest)
        && digits_value(rest) < count {
        Some(digits_value(rest))
    } else {
        None
    }
}

proof fn lemma_digits_grow(s: Seq<char>, i: int)
    requires
        0 <= i <= s.len(),
        all_digits(s),
    ensures
        digits_value(s.subrange(0, i)) <= digits_value(s),
    decreases s.len() - i,
{
    if i < s.len() {
        lemma_digits_grow(s, i + 1);
        let a = s.subrange(0, i);
        let b = s.subrange(0, i + 1);
        assert(b.drop_last() == a);
        assert('0' <= b.last() <= '9');
    } else {
        assert(s.subrange(0, i) == s);
    }
}

/// The monitor an id of the form `monitor_<n>` names among `count`
/// monitors; `None` for any other id or a number out of range.
pub fn monitor_index(id: &str, count: usize) -> (r: Option<usize>)
    ensures
        r is Some <==> monitor_index_of(id@, count as nat) is Some,
        r is Some ==> r->0 == monitor_index_of(id@, count as nat)->0,
{
    let prefix = "monitor_";
    proof {
        reveal_strlit("monitor_");
    }
    let n = id.unicode_len();
    let p = prefix.unicode_len();
    if n <= p || count == 0 || !crate::text::starts_with_str(id, prefix) {
        return None;
    }
    let rest = id.substring_char(p, n);
    let m = rest.unicode_len();
    let mut v: u128 = 0;
    let mut i: usize = 0;
    while i < m
        invariant
            m == rest@.len(),
            i <= m,
            v == digits_value(rest@.subrange(0, i as int)),
            v < count,
            all_digits(rest@.subrange(0, i as int)),
            n == id@.len(),
            p == "monitor_"@.len(),
            n > p,
            id@.subrange(0, p as int) == "monitor_"@,
            rest@ == id@.subrange(p as int, n as int),
        decreases m - i,
    {
        let c = rest.get_char(i);
        if !('0' <= c && c <= '9') {
            proof {
                assert(!all_digits(rest@)) by {
                    assert(rest@[i as int] == c);
                }
            }
            return None;
        }
        let ghost sub = rest@.subrange(0, i + 1);
        assert(sub.drop_last() == rest@.subrange(0, i as int));
        v = v * 10 + (c as u32 - '0' as u32) as u128;
        assert(all_digits(sub)) by {
            assert forall|k: int| 0 <= k < sub.len() implies '0' <= #[trigger] sub[k] <= '9' by {
                if k < i {
                    assert(sub[k] == rest@.subrange(0, i as int)[k]);
                }
            }
        }
        if v >= count as u128 {
            proof {
                if all_digits(rest@) {
                    lemma_digits_grow(rest@, i + 1);
                }
            }
            return None;
        }
        i = i + 1;
    }
    assert(rest@.subrange(0, i as int) == rest@);
    Some(v as usize)
}

/// One screen coordinate of the pop-up: the requested offset `p` within
/// the monitor, moved so that the window stays on it (and never before the
/// monitor's edge), then added to the monitor's origin.
pub open spec fn popup_axis_of(p: int, origin: int, monitor_len: int, window_len: int) -> int {
    let s = if p < monitor_len - window_len { p } else { monitor_len - window_len };
    origin + if s > 0 { s } else { 0 }
}

/// A point on the screen.
#[derive(Clone, Copy, Debug, PartialEq, Eq, Structural)]
pub struct ScreenPoint {
    pub x: i64,
    pub y: i64,
}

fn popup_axis(p: i32, origin: i32, monitor_len: u32, window_len: u32) -> (r: i64)
    ensures
        r == popup_axis_of(p as int, origin as int, monitor_len as int, window_len as int),
{
    let room = monitor_len as i64 - window_len as i64;
    let s = if (p as i64) < room { p as i64 } else { room };
    origin as i64 + if s > 0 { s } else { 0 }
}

/// The screen position of the pop-up on a monitor at `(monitor_x,
/// monitor_y)` of size `monitor_w` by `monitor_h`, for a window of size
/// `window_w` by `window_h` requested at `(x, y)`.
pub fn place_popup(
    x: i32,
    y: i32,
    monitor_x: i32,
    monitor_y: i32,
    monitor_w: u32,
    monitor_h: u32,
    window_w: u32,
    window_h: u32,
) -> (r: ScreenPoint)
    ensures
        r.x == popup_axis_of(x as int, monitor_x as int, monitor_w as int, window_w as int),
        r.y == popup_axis_of(y as int, monitor_y as int, monitor_h as int, window_h as int),
{
    ScreenPoint { x: popup_axis(x, monitor_x, monitor_w, window_w), y: popup_axis(y, monitor_y, monitor_h, window_h) }
}

} // verus!
