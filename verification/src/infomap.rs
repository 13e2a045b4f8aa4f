//! Per-series metadata tables: the label keys a series answers to in
//! the rendered output, and the descriptive statistics per variant.
use vstd::prelude::*;

verus! {

use vstd::string::StringExecFns;
use crate::decfmt::dec_digits;
use crate::decfmt::u32_to_dec;
use crate::strmap::StrMap;
use crate::textkey::lower_seq;

/// The label keys of one series: its data key "y<i>", its trend-line
/// key "tl<i>" and its density key "d<i>".
pub struct SeriesInfo {
    pub y_index: String,
    pub ty_index: String,
    pub dy_index: String,
}

/// The three labels a series with this index answers to.
pub open spec fn series_info_fmt(si: SeriesInfo, y_index: int) -> bool {
    &&& si.y_index@ == seq!['y'] + dec_digits(y_index)
    &&& si.ty_index@ == seq!['t', 'l'] + dec_digits(y_index)
    &&& si.dy_index@ == seq!['d'] + dec_digits(y_index)
}

impl SeriesInfo {
    pub fn new(y_index: u16) -> (r: SeriesInfo)
        ensures
            series_info_fmt(r, y_index as int),
    {
        proof {
            reveal_strlit("y");
            reveal_strlit("tl");
            reveal_strlit("d");
        }
        let digits = u32_to_dec(y_index as u32);
        let mut y = "y".to_owned();
        y.append(digits.as_str());
        let mut ty = "tl".to_owned();
        ty.append(digits.as_str());
        let mut dy = "d".to_owned();
        dy.append(digits.as_str());
        proof {
            assert("y"@ =~= seq!['y']);
            assert("tl"@ =~= seq!['t', 'l']);
            assert("d"@ =~= seq!['d']);
        }
        SeriesInfo { y_index: y, ty_index: ty, dy_index: dy }
    }
}

/// The descriptive statistics of one variant: mean and standard
/// deviation, as binary64 bit patterns.
#[derive(Debug, Clone, Copy, PartialEq, Eq, Structural)]
pub struct StatsInfo {
    pub mean: u64,
    pub std_dev: u64,
}

impl StatsInfo {
    pub fn new(mean: u64, std_dev: u64) -> (r: StatsInfo)
        ensures
            r == (StatsInfo { mean, std_dev }),
    {
        StatsInfo { mean, std_dev }
    }
}

/// How setting one entry changes a map: the value under the folded
/// key is now `v`; everything else stays. A key seen for the first
/// time enters at its sorted position; a key seen again keeps its
/// stored casing and has its value replaced.
pub open spec fn map_set<T>(pre: StrMap<T>, post: StrMap<T>, name: Seq<char>, v: T) -> bool {
    let k = lower_seq(name);
    let i = post.index_of(k);
    &&& post.contains_key(k)
    &&& post.entries@[i].1 == v
    &&& if pre.contains_key(k) {
        &&& i == pre.index_of(k)
        &&& post.spec_len() == pre.spec_len()
        &&& post.entries@[i].0 == pre.entries@[i].0
        &&& forall|j: int|
            0 <= j < post.spec_len() && j != i ==> post.entries@[j] == pre.entries@[j]
    } else {
        &&& post.spec_len() == pre.spec_len() + 1
        &&& post.entries@[i].0@ == name
        &&& post.entries@ == pre.entries@.insert(i, post.entries@[i])
    }
}

/// How recording one value under (group, function) changes a nested
/// map: the group's inner map is set as `map_set` says; other groups
/// stay. A group seen for the first time enters at its sorted
/// position holding exactly that one entry.
pub open spec fn nested_set<T>(
    pre: StrMap<StrMap<T>>,
    post: StrMap<StrMap<T>>,
    group: Seq<char>,
    name: Seq<char>,
    v: T,
) -> bool {
    let k = lower_seq(group);
    let i = post.index_of(k);
    &&& post.contains_key(k)
    &&& post.entries@[i].1.wf()
    &&& if pre.contains_key(k) {
        &&& i == pre.index_of(k)
        &&& post.spec_len() == pre.spec_len()
        &&& post.entries@[i].0 == pre.entries@[i].0
        &&& map_set(pre.entries@[i].1, post.entries@[i].1, name, v)
        &&& forall|j: int|
            0 <= j < post.spec_len() && j != i ==> post.entries@[j] == pre.entries@[j]
    } else {
        &&& post.spec_len() == pre.spec_len() + 1
        &&& post.entries@[i].0@ == group
        &&& post.entries@[i].1.spec_len() == 1
        &&& post.entries@[i].1.entries@[0].0@ == name
        &&& post.entries@[i].1.entries@[0].1 == v
        &&& post.entries@ == pre.entries@.insert(i, post.entries@[i])
    }
}

/// Recording one value never disturbs the rest of a nested map: the
/// (group, function) row now holds `v`; every other group keeps its
/// whole entry; within the group every other function keeps its row;
/// and no key appears that was not there or just recorded.
pub proof fn lemma_nested_set_keeps<T>(
    pre: StrMap<StrMap<T>>,
    post: StrMap<StrMap<T>>,
    group: Seq<char>,
    name: Seq<char>,
    v: T,
)
    requires
        pre.wf(),
        post.wf(),
        forall|i: int| 0 <= i < pre.spec_len() ==> (#[trigger] pre.entries@[i].1).wf(),
        nested_set(pre, post, group, name, v),
    ensures
        post.contains_key(lower_seq(group)),
        post.entries@[post.index_of(lower_seq(group))].1.contains_key(lower_seq(name)),
        post.entries@[post.index_of(lower_seq(group))].1.entries@[post.entries@[post.index_of(
            lower_seq(group),
        )].1.index_of(lower_seq(name))].1 == v,
        forall|k: Seq<u32>|
            pre.contains_key(k) && k != lower_seq(group) ==> #[trigger] post.contains_key(k)
                && post.entries@[post.index_of(k)] == pre.entries@[pre.index_of(k)],
        forall|k: Seq<u32>|
            #[trigger] post.contains_key(k) ==> pre.contains_key(k) || k == lower_seq(group),
        pre.contains_key(lower_seq(group)) ==> forall|ik: Seq<u32>|
            pre.entries@[pre.index_of(lower_seq(group))].1.contains_key(ik) && ik != lower_seq(
                name,
            ) ==> #[trigger] post.entries@[post.index_of(lower_seq(group))].1.contains_key(ik)
                && post.entries@[post.index_of(lower_seq(group))].1.entries@[post.entries@[post.index_of(
                lower_seq(group),
            )].1.index_of(ik)] == pre.entries@[pre.index_of(lower_seq(group))].1.entries@[pre.entries@[pre.index_of(
                lower_seq(group),
            )].1.index_of(ik)],
        forall|ik: Seq<u32>|
            #[trigger] post.entries@[post.index_of(lower_seq(group))].1.contains_key(ik) ==> ik
                == lower_seq(name) || (pre.contains_key(lower_seq(group))
                && pre.entries@[pre.index_of(lower_seq(group))].1.contains_key(ik)),
{
    let gk = lower_seq(group);
    let nk = lower_seq(name);
    let gi = post.index_of(gk);
    let inner_post = post.entries@[gi].1;
    let ni = inner_post.index_of(nk);
    if pre.contains_key(gk) {
        assert(map_set(pre.entries@[gi].1, inner_post, name, v));
        assert(inner_post.contains_key(nk));
        assert(inner_post.entries@[ni].1 == v);
        assert(inner_post.lkey(ni) == nk);
    } else {
        assert(inner_post.lkey(0) == nk);
        assert(inner_post.contains_key(nk));
        inner_post.lemma_index_unique(0);
        assert(ni == 0);
        assert(inner_post.entries@[ni].1 == v);
        assert(inner_post.lkey(ni) == nk);
    }
    assert forall|k: Seq<u32>|
        pre.contains_key(k) && k != gk implies #[trigger] post.contains_key(k)
            && post.entries@[post.index_of(k)] == pre.entries@[pre.index_of(k)] by {
        let j = pre.index_of(k);
        if pre.contains_key(gk) {
            assert(gi == pre.index_of(gk));
            assert(j != gi);
            assert(post.entries@[j] == pre.entries@[j]);
            assert(post.lkey(j) == k);
            post.lemma_index_unique(j);
        } else {
            let jj = if j < gi {
                j
            } else {
                j + 1
            };
            assert(post.entries@[jj] == pre.entries@[j]);
            assert(post.lkey(jj) == k);
            post.lemma_index_unique(jj);
        }
    }
    assert forall|k: Seq<u32>|
        #[trigger] post.contains_key(k) implies pre.contains_key(k) || k == gk by {
        if k != gk {
            let j = post.index_of(k);
            assert(post.lkey(j) == k);
            if pre.contains_key(gk) {
                assert(j != gi);
                assert(post.entries@[j] == pre.entries@[j]);
                assert(pre.lkey(j) == k);
            } else {
                assert(j != gi);
                let jj = if j < gi {
                    j
                } else {
                    j - 1
                };
                assert(post.entries@[j] == pre.entries@[jj]);
                assert(pre.lkey(jj) == k);
            }
        }
    }
    if pre.contains_key(gk) {
        assert(gi == pre.index_of(gk));
        let inner_pre = pre.entries@[gi].1;
        assert(inner_pre.wf());
        assert forall|ik: Seq<u32>|
            inner_pre.contains_key(ik) && ik != nk implies #[trigger] inner_post.contains_key(ik)
                && inner_post.entries@[inner_post.index_of(ik)] == inner_pre.entries@[inner_pre.index_of(
                ik,
            )] by {
            let j = inner_pre.index_of(ik);
            if inner_pre.contains_key(nk) {
                assert(ni == inner_pre.index_of(nk));
                assert(j != ni);
                assert(inner_post.entries@[j] == inner_pre.entries@[j]);
                assert(inner_post.lkey(j) == ik);
                inner_post.lemma_index_unique(j);
            } else {
                let jj = if j < ni {
                    j
                } else {
                    j + 1
                };
                assert(inner_post.entries@[jj] == inner_pre.entries@[j]);
                assert(inner_post.lkey(jj) == ik);
                inner_post.lemma_index_unique(jj);
            }
        }
        assert forall|ik: Seq<u32>|
            #[trigger] inner_post.contains_key(ik) implies ik == nk || inner_pre.contains_key(
            ik,
        ) by {
            if ik != nk {
                let j = inner_post.index_of(ik);
                assert(inner_post.lkey(j) == ik);
                if inner_pre.contains_key(nk) {
                    assert(j != ni);
                    assert(inner_post.entries@[j] == inner_pre.entries@[j]);
                    assert(inner_pre.lkey(j) == ik);
                } else {
                    assert(j != ni);
                    let jj = if j < ni {
                        j
                    } else {
                        j - 1
                    };
                    assert(inner_post.entries@[j] == inner_pre.entries@[jj]);
                    assert(inner_pre.lkey(jj) == ik);
                }
            }
        }
    } else {
        assert(inner_post.spec_len() == 1);
        assert forall|ik: Seq<u32>| #[trigger] inner_post.contains_key(ik) implies ik == nk || (
        pre.contains_key(gk) && pre.entries@[pre.index_of(gk)].1.contains_key(ik)) by {
            let j = inner_post.index_of(ik);
            assert(j == 0);
            assert(inner_post.lkey(0) == nk);
        }
    }
}

/// A table keyed by group and, within a group, by variant, both
/// levels in ascending case-insensitive key order.
pub struct InfoMap<T> {
    pub info_map: StrMap<StrMap<T>>,
    pub map_name: String,
    pub info_name: String,
}

impl<T> InfoMap<T> {
    pub open spec fn wf(self) -> bool {
        &&& self.info_map.wf()
        &&& forall|i: int|
            0 <= i < self.info_map.spec_len() ==> (#[trigger] self.info_map.entries@[i].1).wf()
    }

    pub fn new(map_name: &str, info_name: &str) -> (r: InfoMap<T>)
        ensures
            r.wf(),
            r.info_map.entries@ =~= Seq::<(String, StrMap<T>)>::empty(),
            r.map_name@ == map_name@,
            r.info_name@ == info_name@,
    {
        InfoMap {
            info_map: StrMap::new(),
            map_name: map_name.to_owned(),
            info_name: info_name.to_owned(),
        }
    }

    /// Record a value for (group, function); a value recorded twice
    /// for the same pair replaces the earlier one.
    pub fn push(&mut self, group: &str, function: &str, val: T)
        requires
            old(self).wf(),
        ensures
            final(self).wf(),
            final(self).map_name == old(self).map_name,
            final(self).info_name == old(self).info_name,
            nested_set(old(self).info_map, final(self).info_map, group@, function@, val),
    {
        let ghost pre = self.info_map;
        let (pos, found) = self.info_map.locate(group);
        if found {
            let (k, mut fn_map) = self.info_map.remove_at(pos);
            let ghost inner_pre = fn_map;
            let (ipos, ifound) = fn_map.locate(function);
            if ifound {
                let (ik, _old_val) = fn_map.remove_at(ipos);
                proof {
                    StrMap::lemma_remove_keeps_gap(inner_pre, fn_map, ipos as int);
                }
                fn_map.insert_kv_at(ipos, ik, val);
                proof {
                    assert(fn_map.entries@ =~= inner_pre.entries@.update(
                        ipos as int,
                        fn_map.entries@[ipos as int],
                    ));
                    assert(fn_map.lkey(ipos as int) == lower_seq(function@));
                    assert(fn_map.contains_key(lower_seq(function@)));
                    fn_map.lemma_index_unique(ipos as int);
                    inner_pre.lemma_index_unique(ipos as int);
                }
            } else {
                fn_map.insert_kv_at(ipos, function.to_owned(), val);
                proof {
                    assert(fn_map.lkey(ipos as int) == lower_seq(function@));
                    assert(fn_map.contains_key(lower_seq(function@)));
                    fn_map.lemma_index_unique(ipos as int);
                }
            }
            proof {
                StrMap::lemma_remove_keeps_gap(pre, self.info_map, pos as int);
            }
            self.info_map.insert_kv_at(pos, k, fn_map);
            proof {
                assert(self.info_map.entries@ =~= pre.entries@.update(
                    pos as int,
                    self.info_map.entries@[pos as int],
                ));
                assert(self.info_map.lkey(pos as int) == lower_seq(group@));
                assert(self.info_map.contains_key(lower_seq(group@)));
                self.info_map.lemma_index_unique(pos as int);
                pre.lemma_index_unique(pos as int);
            }
        } else {
            let mut fn_map: StrMap<T> = StrMap::new();
            fn_map.insert_kv_at(0, function.to_owned(), val);
            self.info_map.insert_kv_at(pos, group.to_owned(), fn_map);
            proof {
                assert(self.info_map.lkey(pos as int) == lower_seq(group@));
                assert(self.info_map.contains_key(lower_seq(group@)));
                self.info_map.lemma_index_unique(pos as int);
            }
        }
    }
}

/// The per-variant statistics table of every group.
pub struct StatsInfoMap {
    pub smap: InfoMap<StatsInfo>,
}

impl StatsInfoMap {
    pub open spec fn wf(self) -> bool {
        self.smap.wf()
    }

    pub fn new() -> (r: StatsInfoMap)
        ensures
            r.wf(),
            r.smap.info_map.entries@ =~= Seq::<(String, StrMap<StatsInfo>)>::empty(),
    {
        StatsInfoMap { smap: InfoMap::new("STATS_INFO_MAP", "StatsInfo") }
    }

    pub fn push(&mut self, group: &str, function: &str, stats_info: StatsInfo)
        requires
            old(self).wf(),
        ensures
            final(self).wf(),
            nested_set(
                old(self).smap.info_map,
                final(self).smap.info_map,
                group@,
                function@,
                stats_info,
            ),
    {
        self.smap.push(group, function, stats_info);
    }
}

/// The label-key table of every series of every group.
pub struct SeriesInfoMap {
    pub imap: InfoMap<SeriesInfo>,
}

impl SeriesInfoMap {
    pub open spec fn wf(self) -> bool {
        self.imap.wf()
    }

    pub fn new() -> (r: SeriesInfoMap)
        ensures
            r.wf(),
            r.imap.info_map.entries@ =~= Seq::<(String, StrMap<SeriesInfo>)>::empty(),
    {
        SeriesInfoMap { imap: InfoMap::new("SERIES_INFO_MAP", "SeriesInfo") }
    }

    /// Record that (group, function) answers to the label keys of
    /// this series index.
    pub fn push(&mut self, group: &str, function: &str, yindex: u16)
        requires
            old(self).wf(),
        ensures
            final(self).wf(),
            exists|si: SeriesInfo|
                #[trigger] series_info_fmt(si, yindex as int) && nested_set(
                    old(self).imap.info_map,
                    final(self).imap.info_map,
                    group@,
                    function@,
                    si,
                ),
    {
        let si = SeriesInfo::new(yindex);
        self.imap.push(group, function, si);
    }
}

} // verus!
