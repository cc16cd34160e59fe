//! Application settings: the keys the application knows with their default
//! values, and how stored values and defaults combine.

use vstd::prelude::*;
use crate::text::{chars_of, kv_map, pair_views, str_eq, trim, trim_chars};

verus! {

/// The known settings with their default values, in a fixed order.
pub open spec fn default_settings_spec() -> Seq<(Seq<char>, Seq<char>)> {
    seq![
        ("download.concurrency"@, "32"@),
        ("download.timeout_secs"@, "15"@),
        ("download.retry_delay_ms"@, "500"@),
        ("download.max_retries"@, "3"@),
        ("download.delay_min_ms"@, "0"@),
        ("download.delay_max_ms"@, "150"@),
        ("app.tiles_dir"@, ""@),
        ("server.default_port"@, "8765"@),
        ("rules.time_window_enabled"@, "false"@),
        ("rules.time_window_start"@, "22"@),
        ("rules.time_window_end"@, "8"@),
        ("rules.max_tiles_per_sec"@, "0"@),
        ("rules.burst_pause_ms"@, "0"@),
        ("app.disclaimer_agreed"@, "false"@),
        ("app.close_action"@, "ask"@),
        ("app.float_window"@, "false"@)
    ]
}

/// Views of a list of string-slice pairs.
pub open spec fn str_pair_views(v: Seq<(&str, &str)>) -> Seq<(Seq<char>, Seq<char>)> {
    v.map_values(|p: (&str, &str)| (p.0@, p.1@))
}

/// Every configurable setting with its default value.
pub fn default_settings() -> (r: Vec<(&'static str, &'static str)>)
    ensures
        str_pair_views(r@) == default_settings_spec(),
{
    let r = vec![
        ("download.concurrency", "32"),
        ("download.timeout_secs", "15"),
        ("download.retry_delay_ms", "500"),
        ("download.max_retries", "3"),
        ("download.delay_min_ms", "0"),
        ("download.delay_max_ms", "150"),
        ("app.tiles_dir", ""),
        ("server.default_port", "8765"),
        ("rules.time_window_enabled", "false"),
        ("rules.time_window_start", "22"),
        ("rules.time_window_end", "8"),
        ("rules.max_tiles_per_sec", "0"),
        ("rules.burst_pause_ms", "0"),
        ("app.disclaimer_agreed", "false"),
        ("app.close_action", "ask"),
        ("app.float_window", "false")
    ];
    assert(str_pair_views(r@) =~= default_settings_spec());
    r
}

/// The default value of a known setting.
pub fn default_setting(key: &str) -> (r: Option<&'static str>)
    ensures
        match r {
            Some(v) => kv_map(default_settings_spec()).contains_key(key@) && kv_map(default_settings_spec())[key@] == v@,
            None => !kv_map(default_settings_spec()).contains_key(key@),
        },
{
    let defaults = default_settings();
    let ghost d = str_pair_views(defaults@);
    let mut k = defaults.len();
    while k > 0
        invariant
            k <= defaults.len(),
            d == str_pair_views(defaults@),
            d == default_settings_spec(),
            forall|j: int| k <= j < d.len() ==> d[j].0 != key@,
        decreases k,
    {
        k -= 1;
        if str_eq(defaults[k].0, key) {
            proof {
                crate::text::lemma_kv_map_last_hit(d, k as int);
            }
            return Some(defaults[k].1);
        }
    }
    proof {
        crate::text::lemma_kv_map_miss(d, key@);
    }
    None
}

/// The value a setting reads as: the stored one, else its default (`None`
/// for an unknown key that is not stored).
pub fn setting_value(key: &str, stored: Option<String>) -> (r: Option<String>)
    ensures
        match stored {
            Some(s) => r == Some(s),
            None => match r {
                Some(v) => kv_map(default_settings_spec()).contains_key(key@) && kv_map(default_settings_spec())[key@] == v@,
                None => !kv_map(default_settings_spec()).contains_key(key@),
            },
        },
{
    match stored {
        Some(s) => Some(s),
        None => match default_setting(key) {
            Some(v) => Some(String::from_str(v)),
            None => None,
        },
    }
}

/// All settings: the defaults, overridden by the stored rows in order.
pub fn merge_settings(stored: &Vec<(String, String)>) -> (r: Vec<(String, String)>)
    ensures
        pair_views(r@) == default_settings_spec() + pair_views(stored@),
{
    let defaults = default_settings();
    let mut r: Vec<(String, String)> = Vec::new();
    let mut i: usize = 0;
    while i < defaults.len()
        invariant
            i <= defaults.len(),
            str_pair_views(defaults@) == default_settings_spec(),
            pair_views(r@) == default_settings_spec().subrange(0, i as int),
        decreases defaults.len() - i,
    {
        let ghost old_r = pair_views(r@);
        r.push((String::from_str(defaults[i].0), String::from_str(defaults[i].1)));
        assert(pair_views(r@) =~= old_r.push(default_settings_spec()[i as int]));
        assert(default_settings_spec().subrange(0, i + 1) =~= default_settings_spec().subrange(0, i as int).push(default_settings_spec()[i as int]));
        i += 1;
    }
    assert(default_settings_spec().subrange(0, defaults@.len() as int) =~= default_settings_spec());
    let mut j: usize = 0;
    while j < stored.len()
        invariant
            j <= stored.len(),
            pair_views(r@) == default_settings_spec() + pair_views(stored@).subrange(0, j as int),
        decreases stored.len() - j,
    {
        let ghost old_r = pair_views(r@);
        r.push((stored[j].0.clone(), stored[j].1.clone()));
        assert(pair_views(r@) =~= old_r.push(pair_views(stored@)[j as int]));
        assert(pair_views(stored@).subrange(0, j + 1) =~= pair_views(stored@).subrange(0, j as int).push(pair_views(stored@)[j as int]));
        j += 1;
    }
    assert(pair_views(stored@).subrange(0, stored@.len() as int) =~= pair_views(stored@));
    r
}

/// The tiles directory chosen in `app.tiles_dir`, unless that is unset or
/// blank (then the default under the user's documents is used).
pub fn custom_tiles_dir(setting: Option<String>) -> (r: Option<String>)
    ensures
        r == (match setting {
            Some(d) => if trim(d@).len() > 0 { Some(d) } else { None },
            None => None,
        }),
{
    match setting {
        Some(d) => {
            let t = trim_chars(&chars_of(d.as_str()));
            if t.len() > 0 {
                Some(d)
            } else {
                None
            }
        },
        None => None,
    }
}

} // verus!
