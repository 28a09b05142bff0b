//! The window client's connection launcher: the address being typed, the
//! list of recent addresses, and how a chosen address is remembered.

use crate::capture::string_views;
use crate::text::{trim, trimmed};
use vstd::prelude::*;

verus! {

/// How many recent addresses the launcher keeps.
pub const HISTORY_LIMIT: usize = 5;

/// What the launcher stores between runs.
pub struct LauncherConfig {
    pub last_ip: String,
    /// Recent addresses, most recent first.
    pub history: Vec<String>,
}

impl LauncherConfig {
    /// The configuration used when none is stored: no address, no history.
    pub fn empty() -> (r: Self)
        ensures
            r.last_ip@ == Seq::<char>::empty(),
            r.history@.len() == 0,
    {
        LauncherConfig { last_ip: String::new(), history: Vec::new() }
    }
}

/// The launcher window's state.
pub struct LauncherApp {
    /// The address field.
    pub ip: String,
    /// Recent addresses shown under the field.
    pub history: Vec<String>,
}

/// Copies a list of strings.
fn copy_strings(v: &Vec<String>) -> (r: Vec<String>)
    ensures
        string_views(r@) == string_views(v@),
{
    let mut r: Vec<String> = Vec::new();
    let mut i: usize = 0;
    while i < v.len()
        invariant
            i <= v@.len(),
            r@.len() == i,
            forall|k: int| 0 <= k < i ==> (#[trigger] r@[k])@ == v@[k]@,
        decreases v@.len() - i,
    {
        let c = v[i].clone();
        r.push(c);
        i = i + 1;
    }
    assert(string_views(r@) =~= string_views(v@));
    r
}

impl LauncherApp {
    /// The launcher opened on a stored configuration: the field holds the
    /// last address, the list the history.
    pub fn new(config: &LauncherConfig) -> (r: Self)
        ensures
            r.ip@ == config.last_ip@,
            string_views(r.history@) == string_views(config.history@),
    {
        LauncherApp { ip: config.last_ip.clone(), history: copy_strings(&config.history) }
    }

    /// Connecting (Enter in the field, or the button): the address without
    /// surrounding white space, if anything is left.
    pub fn submit(&self) -> (r: Option<String>)
        ensures
            match r {
                Some(ip) => ip@ == trimmed(self.ip@) && ip@.len() > 0,
                None => trimmed(self.ip@).len() == 0,
            },
    {
        let ip = trim(self.ip.as_str());
        if ip.as_str().unicode_len() == 0 {
            None
        } else {
            Some(ip)
        }
    }

    /// A click on recent address `i` puts it in the field.
    pub fn pick_recent(&mut self, i: usize)
        requires
            i < old(self).history@.len(),
        ensures
            final(self).ip@ == old(self).history@[i as int]@,
            string_views(final(self).history@) == string_views(old(self).history@),
    {
        self.ip = self.history[i].clone();
    }
}

/// Where the launcher's configuration lives, relative to the home
/// directory.
pub open spec fn config_suffix() -> Seq<char> {
    ".config/rs-view/config.json"@
}

/// The configuration file under `home`, joined as a path: with a separator
/// unless `home` is empty or already ends with one.
pub open spec fn config_path_spec(home: Seq<char>) -> Seq<char> {
    if home.len() == 0 || home.last() == '/' {
        home + config_suffix()
    } else {
        home + "/"@ + config_suffix()
    }
}

/// The configuration file, given `HOME` (none when it is unset).
pub fn config_path(home: Option<String>) -> (p: Option<String>)
    ensures
        match home {
            Some(h) => p matches Some(s) && s@ == config_path_spec(h@),
            None => p is None,
        },
{
    match home {
        Some(h) => {
            let n = h.as_str().unicode_len();
            if n == 0 || h.as_str().get_char(n - 1) == '/' {
                Some(h.concat(".config/rs-view/config.json"))
            } else {
                Some(h.concat("/").concat(".config/rs-view/config.json"))
            }
        },
        None => None,
    }
}

/// The first index of `x` in `s`.
pub open spec fn first_index(s: Seq<Seq<char>>, x: Seq<char>) -> int
    decreases s.len(),
{
    if s.len() == 0 {
        0
    } else if s.last() == x && !s.drop_last().contains(x) {
        (s.len() - 1) as int
    } else {
        first_index(s.drop_last(), x)
    }
}

/// The history after `ip` was chosen: a new address goes in front and the
/// list keeps the five most recent; a known one moves to the front.
pub open spec fn remember(history: Seq<Seq<char>>, ip: Seq<char>) -> Seq<Seq<char>> {
    if !history.contains(ip) {
        let n = seq![ip] + history;
        if n.len() > HISTORY_LIMIT {
            n.subrange(0, HISTORY_LIMIT as int)
        } else {
            n
        }
    } else {
        seq![ip] + history.remove(first_index(history, ip))
    }
}

proof fn lemma_first_index(s: Seq<Seq<char>>, x: Seq<char>)
    requires
        s.contains(x),
    ensures
        0 <= first_index(s, x) < s.len(),
        s[first_index(s, x)] == x,
        forall|k: int| 0 <= k < first_index(s, x) ==> s[k] != x,
    decreases s.len(),
{
    if s.last() == x && !s.drop_last().contains(x) {
        assert forall|k: int| 0 <= k < s.len() - 1 implies s[k] != x by {
            if s[k] == x {
                assert(s.drop_last()[k] == x);
            }
        }
    } else {
        if !s.drop_last().contains(x) {
            let w = choose|w: int| 0 <= w < s.len() && s[w] == x;
            if w < s.len() - 1 {
                assert(s.drop_last()[w] == x);
            }
        }
        lemma_first_index(s.drop_last(), x);
        assert forall|k: int| 0 <= k < first_index(s, x) implies s[k] != x by {
            assert(s.drop_last()[k] == s[k]);
        }
    }
}

/// Records that `ip` was chosen.
pub fn remember_ip(config: &mut LauncherConfig, ip: &String)
    ensures
        final(config).last_ip@ == ip@,
        string_views(final(config).history@) == remember(string_views(old(config).history@), ip@),
{
    config.last_ip = ip.clone();
    let ghost h = string_views(config.history@);
    let mut pos: Option<usize> = None;
    let mut i: usize = 0;
    while i < config.history.len()
        invariant
            i <= config.history@.len(),
            h == string_views(config.history@),
            pos is None ==> forall|k: int| 0 <= k < i ==> h[k] != ip@,
            pos matches Some(p) ==> p < h.len() && h[p as int] == ip@ && forall|k: int|
                0 <= k < p ==> h[k] != ip@,
        decreases config.history@.len() - i,
    {
        if pos.is_none() && config.history[i] == *ip {
            pos = Some(i);
        }
        i = i + 1;
    }
    match pos {
        None => {
            assert(!h.contains(ip@)) by {
                if h.contains(ip@) {
                    let w = choose|w: int| 0 <= w < h.len() && h[w] == ip@;
                    assert(h[w] != ip@);
                }
            }
            config.history.insert(0, ip.clone());
            if config.history.len() > HISTORY_LIMIT {
                config.history.truncate(HISTORY_LIMIT);
            }
            assert(string_views(config.history@) =~= remember(h, ip@));
        },
        Some(p) => {
            proof {
                assert(h.contains(ip@)) by {
                    assert(h[p as int] == ip@);
                }
                lemma_first_index(h, ip@);
                let f = first_index(h, ip@);
                if f < p {
                    assert(h[f] != ip@);
                }
                if p < f {
                    assert(h[p as int] != ip@);
                }
            }
            config.history.remove(p);
            config.history.insert(0, ip.clone());
            assert(string_views(config.history@) =~= remember(h, ip@));
        },
    }
}

/// Whether no address occurs twice.
pub open spec fn distinct(s: Seq<Seq<char>>) -> bool {
    forall|i: int, j: int| 0 <= i < j < s.len() ==> s[i] != s[j]
}

/// Law: a history of at most five distinct addresses stays so once an
/// address is chosen, with that address first; it grows by one when the
/// address is new and there is room, and otherwise keeps its length.
pub proof fn law_history_recent_first(history: Seq<Seq<char>>, ip: Seq<char>)
    requires
        distinct(history),
        history.len() <= HISTORY_LIMIT,
    ensures
        ({
            let r = remember(history, ip);
            &&& r.len() > 0 && r[0] == ip
            &&& distinct(r)
            &&& r.len() <= HISTORY_LIMIT
            &&& r.len() == if history.contains(ip) || history.len() == HISTORY_LIMIT {
                history.len()
            } else {
                history.len() + 1
            }
        }),
{
    let r = remember(history, ip);
    if !history.contains(ip) {
        assert forall|i: int, j: int| 0 <= i < j < r.len() implies r[i] != r[j] by {
            if i == 0 {
                assert(r[j] == history[j - 1]);
                assert(history.contains(history[j - 1]));
            } else {
                assert(r[i] == history[i - 1]);
                assert(r[j] == history[j - 1]);
            }
        }
    } else {
        lemma_first_index(history, ip);
        let p = first_index(history, ip);
        let rest = history.remove(p);
        assert forall|i: int, j: int| 0 <= i < j < r.len() implies r[i] != r[j] by {
            if i == 0 {
                if j - 1 < p {
                    assert(rest[j - 1] == history[j - 1]);
                } else {
                    assert(rest[j - 1] == history[j]);
                }
            } else {
                let a = if i - 1 < p { i - 1 } else { i };
                let b = if j - 1 < p { j - 1 } else { j };
                assert(rest[i - 1] == history[a]);
                assert(rest[j - 1] == history[b]);
            }
        }
    }
}

/// Law: the other addresses keep their order. A new address pushes the
/// history back by one place, dropping the oldest beyond five; a known
/// address is taken out of its place and put in front, the rest unmoved.
pub proof fn law_history_keeps_order(history: Seq<Seq<char>>, ip: Seq<char>)
    ensures
        ({
            let r = remember(history, ip);
            &&& !history.contains(ip) ==> r.len() == (if history.len() < 5 {
                history.len() + 1
            } else {
                5
            }) && forall|k: int| 1 <= k < r.len() ==> #[trigger] r[k] == history[k - 1]
            &&& history.contains(ip) ==> exists|p: int|
                0 <= p < history.len() && history[p] == ip && r == seq![ip] + history.remove(p)
        }),
{
    let r = remember(history, ip);
    if history.contains(ip) {
        lemma_first_index(history, ip);
        let p = first_index(history, ip);
        assert(0 <= p < history.len() && history[p] == ip && r == seq![ip] + history.remove(p));
    } else {
        assert forall|k: int| 1 <= k < r.len() implies #[trigger] r[k] == history[k - 1] by {}
    }
}

} // verus!
