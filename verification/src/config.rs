//! Parsing of the sibling config-file format: the same structural skeleton
//! as the credentials file, but every `key = value` line of a section is
//! kept, keyed by its lowered key name.

use vstd::prelude::*;
use crate::line::{
    extract_value_from, find_eq, get_profile_name_from, is_comment_or_empty, is_profile, lower_of,
    spec_extract_value, spec_is_comment_or_empty, spec_is_profile, spec_profile_name, to_ascii_lower,
    trim, trim_of,
};
use crate::str_map::StrKeyMap;

verus! {

/// One section's settings: value text under lowered key name.
pub type SettingsMap = StrKeyMap<String>;

/// A whole config file: settings maps under section names.
pub type ConfigMap = StrKeyMap<SettingsMap>;

/// The key carried by a `key = value` line: the text before the first `=`,
/// trimmed and lowered; absent when the line holds no `=`.
pub open spec fn spec_extract_key(s: Seq<char>) -> Option<Seq<char>> {
    match find_eq(s) {
        None => None,
        Some(i) => Some(lower_of(trim_of(s.subrange(0, i)))),
    }
}

/// Returns the trimmed, lowered left-hand side of the first `=`, or `None`
/// when the line holds no `=`.
pub fn extract_key_from(line: &str) -> (r: Option<String>)
    ensures
        r.deep_view() == spec_extract_key(line@),
{
    let len = line.unicode_len();
    let mut i: usize = 0;
    while i < len && line.get_char(i) != '='
        invariant
            0 <= i <= len,
            len == line@.len(),
            forall|j: int| 0 <= j < i ==> line@[j] != '=',
        decreases len - i,
    {
        i = i + 1;
    }
    if i == len {
        proof {
            crate::line::lemma_find_eq_none(line@);
        }
        return None;
    }
    proof {
        crate::line::lemma_find_eq_at(line@, i as int);
    }
    let lhs = line.substring_char(0, i);
    proof {
        assert(lhs@ =~= line@.subrange(0, i as int));
    }
    Some(to_ascii_lower(trim(lhs)))
}

/// The state of a config parse: the section being filled, if any, and the
/// sections gathered so far.
#[verifier::ext_equal]
pub ghost struct ConfigStateView {
    pub section: Option<(Seq<char>, Map<Seq<char>, Seq<char>>)>,
    pub sections: Map<Seq<char>, Map<Seq<char>, Seq<char>>>,
}

/// The state before any line is read.
pub open spec fn config_initial() -> ConfigStateView {
    ConfigStateView { section: None, sections: Map::empty() }
}

/// The gathered sections once the open section, if any, is put under its
/// name.
pub open spec fn config_commit(st: ConfigStateView) -> Map<Seq<char>, Map<Seq<char>, Seq<char>>> {
    match st.section {
        Some((n, s)) => st.sections.insert(n, s),
        None => st.sections,
    }
}

/// One line fed to the config state machine; `None` stands for a header
/// that yields no name.  A `key = value` line outside any section, with no
/// `=`, or with an empty key is ignored; within a section the later of two
/// lines with the same key wins.
pub open spec fn config_feed_line(st: ConfigStateView, line: Seq<char>) -> Option<ConfigStateView> {
    if spec_is_comment_or_empty(line) {
        Some(st)
    } else if spec_is_profile(line) {
        match spec_profile_name(line) {
            Some(n) => Some(
                ConfigStateView { section: Some((n, Map::empty())), sections: config_commit(st) },
            ),
            None => None,
        }
    } else {
        match st.section {
            None => Some(st),
            Some((n, settings)) => match (spec_extract_key(line), spec_extract_value(line)) {
                (Some(k), Some(v)) => if k.len() > 0 {
                    Some(ConfigStateView { section: Some((n, settings.insert(k, v))), ..st })
                } else {
                    Some(st)
                },
                _ => Some(st),
            },
        }
    }
}

/// All lines fed in order.
pub open spec fn config_feed_lines(st: ConfigStateView, lines: Seq<Seq<char>>) -> Option<
    ConfigStateView,
>
    decreases lines.len(),
{
    if lines.len() == 0 {
        Some(st)
    } else {
        match config_feed_lines(st, lines.drop_last()) {
            None => None,
            Some(st2) => config_feed_line(st2, lines.last()),
        }
    }
}

proof fn lemma_config_none_persists(st: ConfigStateView, lines: Seq<Seq<char>>, k: int)
    requires
        0 <= k <= lines.len(),
        config_feed_lines(st, lines.take(k)) is None,
    ensures
        config_feed_lines(st, lines) is None,
    decreases lines.len() - k,
{
    if k < lines.len() {
        assert(lines.take(k + 1).drop_last() =~= lines.take(k));
        lemma_config_none_persists(st, lines, k + 1);
    } else {
        assert(lines.take(k) =~= lines);
    }
}

/// The view of the open section held by the executable driver.
pub open spec fn section_state(cur: Option<(String, SettingsMap)>) -> Option<
    (Seq<char>, Map<Seq<char>, Seq<char>>),
> {
    match cur {
        Some((n, s)) => Some((n@, s@)),
        None => None,
    }
}

/// Puts the open section, if any, under its name.
fn commit_config_section(acc: ConfigMap, cur: Option<(String, SettingsMap)>) -> (r: ConfigMap)
    ensures
        r@ == config_commit(ConfigStateView { section: section_state(cur), sections: acc@ }),
{
    match cur {
        Some((name, settings)) => acc.insert(name, settings),
        None => acc,
    }
}

/// Folds every line of a config file into its sections.  `None` is returned
/// for a header without a usable name, and when no section at all was
/// gathered; a non-empty result is never withheld.
pub fn create_profile_config_map_from(lines: &Vec<String>) -> (r: Option<ConfigMap>)
    ensures
        match r {
            Some(m) => {
                &&& config_feed_lines(config_initial(), lines.deep_view()) matches Some(st)
                &&& m@ == config_commit(st)
                &&& m@.len() > 0
            },
            None => match config_feed_lines(config_initial(), lines.deep_view()) {
                Some(st) => config_commit(st).len() == 0,
                None => true,
            },
        },
{
    let ghost lseq = lines.deep_view();
    let mut acc = ConfigMap::new();
    let mut cur: Option<(String, SettingsMap)> = None;
    let n = lines.len();
    let mut idx: usize = 0;
    while idx < n
        invariant
            0 <= idx <= n,
            n == lines@.len(),
            lseq == lines.deep_view(),
            lseq.len() == n,
            config_feed_lines(config_initial(), lseq.take(idx as int)) == Some(
                ConfigStateView { section: section_state(cur), sections: acc@ },
            ),
        decreases n - idx,
    {
        let line = &lines[idx];
        proof {
            assert(lseq[idx as int] == line@);
        }
        let ghost st_pre = ConfigStateView { section: section_state(cur), sections: acc@ };
        if is_comment_or_empty(line.as_str()) {
        } else if is_profile(line.as_str()) {
            match get_profile_name_from(line.as_str()) {
                None => {
                    proof {
                        assert(config_feed_line(st_pre, lseq[idx as int]) is None);
                        assert(lseq.take(idx + 1).drop_last() =~= lseq.take(idx as int));
                        assert(lseq.take(idx + 1).last() == lseq[idx as int]);
                        lemma_config_none_persists(config_initial(), lseq, idx + 1);
                    }
                    return None;
                },
                Some(name) => {
                    acc = commit_config_section(acc, cur);
                    cur = Some((name, StrKeyMap::new()));
                },
            }
        } else {
            cur = match cur {
                None => None,
                Some((name, settings)) => {
                    match (extract_key_from(line.as_str()), extract_value_from(line.as_str())) {
                        (Some(key), Some(value)) => {
                            if key.as_str().is_empty() {
                                Some((name, settings))
                            } else {
                                Some((name, settings.insert(key, value)))
                            }
                        },
                        _ => Some((name, settings)),
                    }
                },
            };
        }
        proof {
            assert(lseq.take(idx + 1).drop_last() =~= lseq.take(idx as int));
            assert(lseq.take(idx + 1).last() == lseq[idx as int]);
            assert(config_feed_line(st_pre, lseq[idx as int]) == Some(
                ConfigStateView { section: section_state(cur), sections: acc@ },
            ));
        }
        idx = idx + 1;
    }
    proof {
        assert(lseq.take(n as int) =~= lseq);
    }
    let result = commit_config_section(acc, cur);
    if result.is_empty() {
        None
    } else {
        Some(result)
    }
}

} // verus!
