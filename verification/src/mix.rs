//! Validation and grouping of raw mix selections.
//!
//! A caller hands over one entry per chosen source/kind pair; planning trims
//! and de-duplicates the requested track ids, groups the surviving entries by
//! kind, enforces that each kind names a single source file and that a video
//! selection is present, and returns one consolidated selection per kind.
//!
//! Whether a source path exists on disk is a fact about the outside world, so
//! the caller passes it in: `exists[i]` states whether the `i`-th entry's
//! source file is present.

use vstd::prelude::*;
use crate::text::{dedup_append, lower_spec, lower_string, str_eq, strings_view, trim_spec,
    trim_string, trimmed_nonblank, trimmed_nonblank_exec};

verus! {

/// One raw caller-supplied selection: tracks of one kind from one source.
/// Language overrides are `(track id, language)` pairs; on repeated ids the
/// later pair wins.
pub struct MixTrackInput {
    pub path: String,
    pub kind: String,
    pub track_ids: Vec<String>,
    pub track_langs: Vec<(String, String)>,
}

/// The consolidated selection for one kind: a single source path, the
/// ordered, de-duplicated track ids, and the merged language overrides.
#[derive(Debug)]
pub struct ConsolidatedSelection {
    pub source_path: String,
    pub track_ids: Vec<String>,
    pub track_langs: Vec<(String, String)>,
}

/// The planned mix: at most one consolidated selection per kind, with the
/// video selection always present.
#[derive(Debug)]
pub struct MixPlan {
    pub video: Option<ConsolidatedSelection>,
    pub audio: Option<ConsolidatedSelection>,
    pub subtitle: Option<ConsolidatedSelection>,
}

/// Why planning failed.
#[derive(Debug)]
pub enum MixError {
    /// The input sequence was empty.
    NoTracksProvided,
    /// A selection's source path was empty or its file does not exist; the
    /// payload is the trimmed path.
    SourceMissing { path: String },
    /// Two selections of one kind named different source paths.
    ConflictingSourceForKind { kind: String },
    /// No video selection survived grouping.
    MissingVideoTrack,
}

/// The mathematical value of a raw selection.
pub struct SelectionModel {
    pub path: Seq<char>,
    pub kind: Seq<char>,
    pub ids: Seq<Seq<char>>,
    pub langs: Seq<(Seq<char>, Seq<char>)>,
}

/// The mathematical value of a consolidated selection.
pub struct GroupModel {
    pub kind: Seq<char>,
    pub path: Seq<char>,
    pub ids: Seq<Seq<char>>,
    pub langs: Seq<(Seq<char>, Seq<char>)>,
}

/// The mathematical value of a planned mix.
pub struct PlanModel {
    pub video: Option<GroupModel>,
    pub audio: Option<GroupModel>,
    pub subtitle: Option<GroupModel>,
}

/// The mathematical value of a planning error.
pub enum MixErrorModel {
    NoTracks,
    SourceMissing { path: Seq<char> },
    Conflicting { kind: Seq<char> },
    MissingVideo,
}

/// The views of a vector of override pairs.
pub open spec fn langs_view(v: Seq<(String, String)>) -> Seq<(Seq<char>, Seq<char>)> {
    v.map_values(|p: (String, String)| (p.0@, p.1@))
}

impl View for MixTrackInput {
    type V = SelectionModel;

    open spec fn view(&self) -> SelectionModel {
        SelectionModel {
            path: self.path@,
            kind: self.kind@,
            ids: strings_view(self.track_ids@),
            langs: langs_view(self.track_langs@),
        }
    }
}

/// The models of a vector of raw selections.
pub open spec fn sels_view(v: Seq<MixTrackInput>) -> Seq<SelectionModel> {
    v.map_values(|s: MixTrackInput| s@)
}

impl View for MixError {
    type V = MixErrorModel;

    open spec fn view(&self) -> MixErrorModel {
        match self {
            MixError::NoTracksProvided => MixErrorModel::NoTracks,
            MixError::SourceMissing { path } => MixErrorModel::SourceMissing { path: path@ },
            MixError::ConflictingSourceForKind { kind } => MixErrorModel::Conflicting {
                kind: kind@,
            },
            MixError::MissingVideoTrack => MixErrorModel::MissingVideo,
        }
    }
}

impl View for MixPlan {
    type V = PlanModel;

    open spec fn view(&self) -> PlanModel {
        PlanModel {
            video: match self.video {
                Some(g) => Some(group_model("video"@, g)),
                None => None,
            },
            audio: match self.audio {
                Some(g) => Some(group_model("audio"@, g)),
                None => None,
            },
            subtitle: match self.subtitle {
                Some(g) => Some(group_model("subtitle"@, g)),
                None => None,
            },
        }
    }
}

/// The model of a consolidated selection standing under a kind.
pub open spec fn group_model(kind: Seq<char>, g: ConsolidatedSelection) -> GroupModel {
    GroupModel {
        kind: kind,
        path: g.source_path@,
        ids: strings_view(g.track_ids@),
        langs: langs_view(g.track_langs@),
    }
}

/// The index of the group of a kind, or -1 when there is none.
pub open spec fn group_index(groups: Seq<GroupModel>, kind: Seq<char>) -> int
    decreases groups.len(),
{
    if groups.len() == 0 {
        -1
    } else if groups[0].kind == kind {
        0
    } else {
        let r = group_index(groups.drop_first(), kind);
        if r < 0 {
            -1
        } else {
            r + 1
        }
    }
}

proof fn lemma_group_index(groups: Seq<GroupModel>, kind: Seq<char>)
    ensures
        ({
            let gi = group_index(groups, kind);
            &&& gi >= 0 ==> gi < groups.len() && groups[gi].kind == kind && (forall|j: int|
                0 <= j < gi ==> (#[trigger] groups[j]).kind != kind)
            &&& gi < 0 ==> gi == -1 && (forall|j: int|
                0 <= j < groups.len() ==> (#[trigger] groups[j]).kind != kind)
        }),
    decreases groups.len(),
{
    if groups.len() == 0 {
    } else if groups[0].kind == kind {
    } else {
        let rest = groups.drop_first();
        lemma_group_index(rest, kind);
        let gi = group_index(groups, kind);
        if gi >= 0 {
            assert(groups[gi] == rest[gi - 1]);
            assert forall|j: int| 0 <= j < gi implies (#[trigger] groups[j]).kind != kind by {
                if j >= 1 {
                    assert(groups[j] == rest[j - 1]);
                }
            }
        } else {
            assert forall|j: int|
                0 <= j < groups.len() implies (#[trigger] groups[j]).kind != kind by {
                if j >= 1 {
                    assert(groups[j] == rest[j - 1]);
                }
            }
        }
    }
}

/// How one selection changes the accumulated groups, or fails.
pub open spec fn plan_step(groups: Seq<GroupModel>, s: SelectionModel, ex: bool) -> Result<
    Seq<GroupModel>,
    MixErrorModel,
> {
    let p = trim_spec(s.path);
    if p.len() == 0 {
        Err(MixErrorModel::SourceMissing { path: p })
    } else if !ex {
        Err(MixErrorModel::SourceMissing { path: p })
    } else {
        let ids = trimmed_nonblank(s.ids);
        if ids.len() == 0 {
            Ok(groups)
        } else {
            let k = lower_spec(s.kind);
            let gi = group_index(groups, k);
            if gi < 0 {
                Ok(
                    groups.push(
                        GroupModel {
                            kind: k,
                            path: p,
                            ids: dedup_append(Seq::empty(), ids),
                            langs: s.langs,
                        },
                    ),
                )
            } else if groups[gi].path != p {
                Err(MixErrorModel::Conflicting { kind: k })
            } else {
                Ok(
                    groups.update(
                        gi,
                        GroupModel {
                            kind: k,
                            path: p,
                            ids: dedup_append(groups[gi].ids, ids),
                            langs: groups[gi].langs + s.langs,
                        },
                    ),
                )
            }
        }
    }
}

/// Fold the selections, in order, into grouped selections.
pub open spec fn plan_fold(
    groups: Seq<GroupModel>,
    sels: Seq<SelectionModel>,
    exists_flags: Seq<bool>,
) -> Result<Seq<GroupModel>, MixErrorModel>
    decreases sels.len(),
{
    if sels.len() == 0 {
        Ok(groups)
    } else {
        match plan_step(groups, sels[0], exists_flags[0]) {
            Err(e) => Err(e),
            Ok(g) => plan_fold(g, sels.drop_first(), exists_flags.drop_first()),
        }
    }
}

/// The group of a kind, if one was formed.
pub open spec fn group_opt(groups: Seq<GroupModel>, kind: Seq<char>) -> Option<GroupModel> {
    let gi = group_index(groups, kind);
    if gi >= 0 {
        Some(groups[gi])
    } else {
        None
    }
}

/// What planning returns: the consolidated video/audio/subtitle selections,
/// or the first error in selection order; an empty input fails outright, and
/// a grouping without video fails last.
pub open spec fn plan_spec(sels: Seq<SelectionModel>, exists_flags: Seq<bool>) -> Result<
    PlanModel,
    MixErrorModel,
> {
    if sels.len() == 0 {
        Err(MixErrorModel::NoTracks)
    } else {
        match plan_fold(Seq::empty(), sels, exists_flags) {
            Err(e) => Err(e),
            Ok(groups) => if group_index(groups, "video"@) < 0 {
                Err(MixErrorModel::MissingVideo)
            } else {
                Ok(
                    PlanModel {
                        video: group_opt(groups, "video"@),
                        audio: group_opt(groups, "audio"@),
                        subtitle: group_opt(groups, "subtitle"@),
                    },
                )
            },
        }
    }
}

/// The model of a plan call's result.
pub open spec fn plan_result_model(r: Result<MixPlan, MixError>) -> Result<
    PlanModel,
    MixErrorModel,
> {
    match r {
        Ok(p) => Ok(p@),
        Err(e) => Err(e@),
    }
}

/// The report text of a planning error, as it is surfaced to the caller.
pub open spec fn mix_error_message_spec(e: MixErrorModel) -> Seq<char> {
    match e {
        MixErrorModel::NoTracks => "未提供可合成的轨道"@,
        MixErrorModel::SourceMissing { path } => if path.len() == 0 {
            "轨道文件路径为空"@
        } else {
            "轨道文件不存在: "@ + path
        },
        MixErrorModel::Conflicting { kind } => "同一类型只支持一个文件："@ + kind,
        MixErrorModel::MissingVideo => "请先检测并选择至少一个视频轨道"@,
    }
}

impl MixError {
    /// The error's report text.
    pub fn message(&self) -> (r: String)
        ensures
            r@ == mix_error_message_spec(self@),
    {
        match self {
            MixError::NoTracksProvided => crate::text::lit_string("未提供可合成的轨道"),
            MixError::SourceMissing { path } => {
                if path.as_str().unicode_len() == 0 {
                    crate::text::lit_string("轨道文件路径为空")
                } else {
                    crate::text::lit_string("轨道文件不存在: ").concat(path.as_str())
                }
            },
            MixError::ConflictingSourceForKind { kind } => crate::text::lit_string(
                "同一类型只支持一个文件：",
            ).concat(kind.as_str()),
            MixError::MissingVideoTrack => crate::text::lit_string("请先检测并选择至少一个视频轨道"),
        }
    }
}

/// A selection that passes per-entry validation: a non-blank source path
/// whose file exists, and at least one usable track id.
pub open spec fn valid_sel(s: SelectionModel, ex: bool) -> bool {
    trim_spec(s.path).len() > 0 && ex && trimmed_nonblank(s.ids).len() > 0
}

proof fn lemma_fold_no_conflict(
    groups: Seq<GroupModel>,
    sels: Seq<SelectionModel>,
    exists_flags: Seq<bool>,
)
    requires
        sels.len() == exists_flags.len(),
        forall|i: int| 0 <= i < sels.len() ==> trim_spec((#[trigger] sels[i]).path).len() > 0,
        forall|i: int| 0 <= i < exists_flags.len() ==> exists_flags[i],
        forall|gi: int, i: int|
            0 <= gi < groups.len() && 0 <= i < sels.len() && (#[trigger] groups[gi]).kind
                == lower_spec((#[trigger] sels[i]).kind) ==> groups[gi].path == trim_spec(
                sels[i].path,
            ),
        forall|i: int, j: int|
            0 <= i < sels.len() && 0 <= j < sels.len() && lower_spec((#[trigger] sels[i]).kind)
                == lower_spec((#[trigger] sels[j]).kind) ==> trim_spec(sels[i].path) == trim_spec(
                sels[j].path,
            ),
    ensures
        plan_fold(groups, sels, exists_flags) is Ok,
        forall|t: int|
            0 <= t < plan_fold(groups, sels, exists_flags)->Ok_0.len() ==> ((exists|gi: int|
                0 <= gi < groups.len() && (#[trigger] groups[gi]).kind == (
                #[trigger] plan_fold(groups, sels, exists_flags)->Ok_0[t]).kind) || (exists|i: int|
                0 <= i < sels.len() && lower_spec((#[trigger] sels[i]).kind) == plan_fold(
                    groups,
                    sels,
                    exists_flags,
                )->Ok_0[t].kind)),
    decreases sels.len(),
{
    if sels.len() == 0 {
    } else {
        let s = sels[0];
        let ex = exists_flags[0];
        let rest = sels.drop_first();
        let erest = exists_flags.drop_first();
        assert(forall|i: int| 0 <= i < rest.len() ==> rest[i] == (#[trigger] sels[i + 1]));
        let step = plan_step(groups, s, ex);
        let p = trim_spec(s.path);
        let ids = trimmed_nonblank(s.ids);
        let k = lower_spec(s.kind);
        if ids.len() == 0 {
            lemma_fold_no_conflict(groups, rest, erest);
        } else {
            let gi = group_index(groups, k);
            lemma_group_index(groups, k);
            if gi < 0 {
                let g2 = groups.push(
                    GroupModel { kind: k, path: p, ids: dedup_append(Seq::empty(), ids), langs: s.langs },
                );
                lemma_fold_no_conflict(g2, rest, erest);
            } else {
                assert(groups[gi].path == p);
                let g2 = groups.update(
                    gi,
                    GroupModel {
                        kind: k,
                        path: p,
                        ids: dedup_append(groups[gi].ids, ids),
                        langs: groups[gi].langs + s.langs,
                    },
                );
                lemma_fold_no_conflict(g2, rest, erest);
            }
        }
    }
}

/// When every selection is valid but none is of kind video, planning fails
/// with exactly the missing-video error.
pub proof fn lemma_plan_without_video_fails(sels: Seq<SelectionModel>, exists_flags: Seq<bool>)
    requires
        sels.len() > 0,
        sels.len() == exists_flags.len(),
        forall|i: int| 0 <= i < sels.len() ==> trim_spec((#[trigger] sels[i]).path).len() > 0,
        forall|i: int| 0 <= i < exists_flags.len() ==> exists_flags[i],
        forall|i: int, j: int|
            0 <= i < sels.len() && 0 <= j < sels.len() && lower_spec((#[trigger] sels[i]).kind)
                == lower_spec((#[trigger] sels[j]).kind) ==> trim_spec(sels[i].path) == trim_spec(
                sels[j].path,
            ),
        forall|i: int| 0 <= i < sels.len() ==> lower_spec((#[trigger] sels[i]).kind) != "video"@,
    ensures
        plan_spec(sels, exists_flags) == Err::<PlanModel, MixErrorModel>(
            MixErrorModel::MissingVideo,
        ),
{
    lemma_fold_no_conflict(Seq::empty(), sels, exists_flags);
    let groups = plan_fold(Seq::empty(), sels, exists_flags)->Ok_0;
    lemma_group_index(groups, "video"@);
    let gi = group_index(groups, "video"@);
    if gi >= 0 {
        assert(groups[gi].kind == "video"@);
    }
}

/// Two valid selections of one kind that name different source paths make
/// planning fail with exactly the conflicting-source error; shown here for
/// two audio selections.
pub proof fn lemma_conflicting_audio_sources_fail(
    sels: Seq<SelectionModel>,
    exists_flags: Seq<bool>,
)
    requires
        sels.len() == 2,
        exists_flags.len() == 2,
        exists_flags[0] && exists_flags[1],
        valid_sel(sels[0], exists_flags[0]),
        valid_sel(sels[1], exists_flags[1]),
        lower_spec(sels[0].kind) == "audio"@,
        lower_spec(sels[1].kind) == "audio"@,
        trim_spec(sels[0].path) != trim_spec(sels[1].path),
    ensures
        plan_spec(sels, exists_flags) == Err::<PlanModel, MixErrorModel>(
            MixErrorModel::Conflicting { kind: "audio"@ },
        ),
{
    let s0 = sels[0];
    let s1 = sels[1];
    let g0 = GroupModel {
        kind: "audio"@,
        path: trim_spec(s0.path),
        ids: dedup_append(Seq::empty(), trimmed_nonblank(s0.ids)),
        langs: s0.langs,
    };
    assert(plan_step(Seq::empty(), s0, exists_flags[0]) == Ok::<Seq<GroupModel>, MixErrorModel>(
        Seq::<GroupModel>::empty().push(g0),
    ));
    let groups1 = Seq::<GroupModel>::empty().push(g0);
    assert(group_index(groups1, "audio"@) == 0);
    assert(plan_step(groups1, s1, exists_flags[1]) == Err::<Seq<GroupModel>, MixErrorModel>(
        MixErrorModel::Conflicting { kind: "audio"@ },
    ));
    assert(sels.drop_first()[0] == s1);
    assert(exists_flags.drop_first()[0] == exists_flags[1]);
    assert(sels.drop_first().drop_first().len() == 0);
    assert(plan_fold(groups1, sels.drop_first(), exists_flags.drop_first())
        == Err::<Seq<GroupModel>, MixErrorModel>(MixErrorModel::Conflicting { kind: "audio"@ }));
    assert(plan_fold(Seq::empty(), sels, exists_flags) == Err::<Seq<GroupModel>, MixErrorModel>(
        MixErrorModel::Conflicting { kind: "audio"@ },
    ));
}

/// A planned mix always carries a video selection: planning only succeeds
/// once a video group was formed.
pub proof fn lemma_planned_mix_has_video(sels: Seq<SelectionModel>, exists_flags: Seq<bool>)
    ensures
        plan_spec(sels, exists_flags) matches Ok(p) ==> p.video is Some,
{
}

/// One grouped selection while planning runs.
struct MixGroup {
    kind: String,
    source_path: String,
    track_ids: Vec<String>,
    track_langs: Vec<(String, String)>,
}

impl View for MixGroup {
    type V = GroupModel;

    closed spec fn view(&self) -> GroupModel {
        GroupModel {
            kind: self.kind@,
            path: self.source_path@,
            ids: strings_view(self.track_ids@),
            langs: langs_view(self.track_langs@),
        }
    }
}

spec fn groups_view(v: Seq<MixGroup>) -> Seq<GroupModel> {
    v.map_values(|g: MixGroup| g@)
}

/// Whether a string with this view is one of the vector's elements.
fn ids_contains(v: &Vec<String>, x: &str) -> (r: bool)
    ensures
        r == strings_view(v@).contains(x@),
{
    let n = v.len();
    for i in 0..n
        invariant
            n == v@.len(),
            forall|j: int| 0 <= j < i ==> strings_view(v@)[j] != x@,
    {
        if str_eq(v[i].as_str(), x) {
            assert(strings_view(v@)[i as int] == x@);
            return true;
        }
    }
    false
}

/// Append new ids to a group's ids, in order, skipping those already there.
fn merge_ids(base: &mut Vec<String>, xs: &Vec<String>)
    ensures
        strings_view(final(base)@) == dedup_append(strings_view(old(base)@), strings_view(xs@)),
{
    let n = xs.len();
    let ghost all = strings_view(xs@);
    proof {
        assert(all.skip(0) =~= all);
    }
    for i in 0..n
        invariant
            n == xs@.len(),
            all == strings_view(xs@),
            dedup_append(strings_view(base@), all.skip(i as int)) == dedup_append(
                strings_view(old(base)@),
                all,
            ),
    {
        proof {
            assert(all.skip(i as int).drop_first() =~= all.skip(i + 1));
            assert(all.skip(i as int)[0] == xs@[i as int]@);
        }
        let ghost before = strings_view(base@);
        if !ids_contains(base, xs[i].as_str()) {
            base.push(xs[i].clone());
            proof {
                assert(strings_view(base@) =~= before.push(xs@[i as int]@));
            }
        }
    }
    proof {
        assert(all.skip(n as int) =~= Seq::<Seq<char>>::empty());
    }
}

fn clone_langs(v: &Vec<(String, String)>) -> (r: Vec<(String, String)>)
    ensures
        r@ == v@,
{
    let mut out: Vec<(String, String)> = Vec::new();
    let n = v.len();
    for i in 0..n
        invariant
            n == v@.len(),
            out@ =~= v@.take(i as int),
    {
        let pair = &v[i];
        out.push((pair.0.clone(), pair.1.clone()));
        assert(out@ =~= v@.take(i + 1));
    }
    proof {
        assert(v@.take(n as int) =~= v@);
    }
    out
}

fn append_langs(dst: &mut Vec<(String, String)>, src: &Vec<(String, String)>)
    ensures
        final (dst)@ == old(dst)@ + src@,
{
    let n = src.len();
    let ghost base = dst@;
    for i in 0..n
        invariant
            n == src@.len(),
            base == old(dst)@,
            dst@ =~= base + src@.take(i as int),
    {
        let pair = &src[i];
        dst.push((pair.0.clone(), pair.1.clone()));
        assert(dst@ =~= base + src@.take(i + 1));
    }
    proof {
        assert(src@.take(n as int) =~= src@);
    }
}

fn find_group(groups: &Vec<MixGroup>, kind: &str) -> (r: Option<usize>)
    ensures
        match r {
            Some(j) => j < groups@.len() && j == group_index(groups_view(groups@), kind@),
            None => group_index(groups_view(groups@), kind@) == -1,
        },
{
    let ghost gv = groups_view(groups@);
    let n = groups.len();
    for j in 0..n
        invariant
            n == groups@.len(),
            gv == groups_view(groups@),
            forall|t: int| 0 <= t < j ==> (#[trigger] gv[t]).kind != kind@,
    {
        if str_eq(groups[j].kind.as_str(), kind) {
            proof {
                assert(gv[j as int].kind == kind@);
                lemma_group_index(gv, kind@);
                let gi = group_index(gv, kind@);
                if gi < 0 {
                    assert(gv[j as int].kind != kind@);
                } else if gi < j {
                    assert(gv[gi].kind != kind@);
                } else if gi > j {
                    assert(gv[j as int].kind != kind@);
                }
            }
            return Some(j);
        }
    }
    proof {
        lemma_group_index(gv, kind@);
        let gi = group_index(gv, kind@);
        if gi >= 0 {
            assert(gv[gi].kind != kind@);
        }
    }
    None
}

fn group_selection(g: &MixGroup) -> (r: ConsolidatedSelection)
    ensures
        group_model(g@.kind, r) == g@,
{
    ConsolidatedSelection {
        source_path: g.source_path.clone(),
        track_ids: clone_string_vec(&g.track_ids),
        track_langs: clone_langs(&g.track_langs),
    }
}

fn clone_string_vec(v: &Vec<String>) -> (r: Vec<String>)
    ensures
        r@ == v@,
{
    let mut out: Vec<String> = Vec::new();
    let n = v.len();
    for i in 0..n
        invariant
            n == v@.len(),
            out@ =~= v@.take(i as int),
    {
        out.push(v[i].clone());
        assert(out@ =~= v@.take(i + 1));
    }
    proof {
        assert(v@.take(n as int) =~= v@);
    }
    out
}

/// Validate and group raw selections into one consolidated selection per
/// kind. `exists_flags[i]` states whether the `i`-th selection's source file
/// is present on disk.
///
/// Fails with `NoTracksProvided` on an empty input; with `SourceMissing` on
/// the first selection whose trimmed path is empty or whose file is absent;
/// with `ConflictingSourceForKind` when a kind names two different sources;
/// and with `MissingVideoTrack` when no video selection survives grouping.
pub fn plan(inputs: &Vec<MixTrackInput>, exists_flags: &Vec<bool>) -> (r: Result<MixPlan, MixError>)
    requires
        inputs@.len() == exists_flags@.len(),
    ensures
        plan_result_model(r) == plan_spec(sels_view(inputs@), exists_flags@),
{
    let ghost sv = sels_view(inputs@);
    let ghost ef = exists_flags@;
    if inputs.len() == 0 {
        return Err(MixError::NoTracksProvided);
    }
    let mut groups: Vec<MixGroup> = Vec::new();
    let n = inputs.len();
    proof {
        assert(sv.skip(0) =~= sv);
        assert(ef.skip(0) =~= ef);
        assert(groups_view(groups@) =~= Seq::<GroupModel>::empty());
    }
    for i in 0..n
        invariant
            n == inputs@.len(),
            n == exists_flags@.len(),
            n > 0,
            sv == sels_view(inputs@),
            ef == exists_flags@,
            plan_fold(groups_view(groups@), sv.skip(i as int), ef.skip(i as int)) == plan_fold(
                Seq::empty(),
                sv,
                ef,
            ),
    {
        let ghost gv0 = groups_view(groups@);
        let ghost sm = sv[i as int];
        proof {
            assert(sm == inputs@[i as int]@);
            assert(sv.skip(i as int)[0] == sm);
            assert(ef.skip(i as int)[0] == ef[i as int]);
            assert(sv.skip(i as int).drop_first() =~= sv.skip(i + 1));
            assert(ef.skip(i as int).drop_first() =~= ef.skip(i + 1));
        }
        let s = &inputs[i];
        let p = trim_string(s.path.as_str());
        if p.as_str().unicode_len() == 0 {
            proof {
                assert(plan_step(gv0, sm, ef[i as int]) == Err::<Seq<GroupModel>, MixErrorModel>(
                    MixErrorModel::SourceMissing { path: p@ },
                ));
            }
            return Err(MixError::SourceMissing { path: p });
        }
        if !exists_flags[i] {
            proof {
                assert(plan_step(gv0, sm, ef[i as int]) == Err::<Seq<GroupModel>, MixErrorModel>(
                    MixErrorModel::SourceMissing { path: p@ },
                ));
            }
            return Err(MixError::SourceMissing { path: p });
        }
        let cleaned = trimmed_nonblank_exec(&s.track_ids);
        if cleaned.len() == 0 {
            proof {
                assert(strings_view(cleaned@).len() == cleaned@.len());
                assert(trimmed_nonblank(sm.ids).len() == 0);
                assert(plan_step(gv0, sm, ef[i as int]) == Ok::<Seq<GroupModel>, MixErrorModel>(
                    gv0,
                ));
            }
        } else {
            proof {
                assert(strings_view(cleaned@).len() == cleaned@.len());
                assert(trimmed_nonblank(sm.ids).len() > 0);
            }
            let kind_l = lower_string(s.kind.as_str());
            let ghost k = lower_spec(sm.kind);
            match find_group(&groups, kind_l.as_str()) {
                None => {
                    let mut tids: Vec<String> = Vec::new();
                    proof {
                        assert(strings_view(tids@) =~= Seq::<Seq<char>>::empty());
                    }
                    merge_ids(&mut tids, &cleaned);
                    let g = MixGroup {
                        kind: kind_l,
                        source_path: p,
                        track_ids: tids,
                        track_langs: clone_langs(&s.track_langs),
                    };
                    let ghost gm = g@;
                    groups.push(g);
                    proof {
                        assert(groups_view(groups@) =~= gv0.push(gm));
                        assert(gm == GroupModel {
                            kind: k,
                            path: trim_spec(sm.path),
                            ids: dedup_append(Seq::empty(), trimmed_nonblank(sm.ids)),
                            langs: sm.langs,
                        });
                        assert(plan_step(gv0, sm, ef[i as int])
                            == Ok::<Seq<GroupModel>, MixErrorModel>(gv0.push(gm)));
                    }
                },
                Some(j) => {
                    proof {
                        lemma_group_index(gv0, k);
                    }
                    if !str_eq(groups[j].source_path.as_str(), p.as_str()) {
                        proof {
                            assert(gv0[j as int].path != p@);
                            assert(plan_step(gv0, sm, ef[i as int])
                                == Err::<Seq<GroupModel>, MixErrorModel>(
                                MixErrorModel::Conflicting { kind: k },
                            ));
                        }
                        return Err(MixError::ConflictingSourceForKind { kind: kind_l });
                    }
                    let mut g = groups.remove(j);
                    proof {
                        assert(g@ == gv0[j as int]);
                    }
                    merge_ids(&mut g.track_ids, &cleaned);
                    append_langs(&mut g.track_langs, &s.track_langs);
                    proof {
                        assert(strings_view(g.track_ids@) == dedup_append(
                            gv0[j as int].ids,
                            trimmed_nonblank(sm.ids),
                        ));
                        assert(langs_view(g.track_langs@) =~= gv0[j as int].langs + sm.langs);
                    }
                    let ghost gm = g@;
                    groups.insert(j, g);
                    proof {
                        assert(groups_view(groups@) =~= gv0.update(j as int, gm));
                        assert(gm == GroupModel {
                            kind: k,
                            path: gv0[j as int].path,
                            ids: dedup_append(gv0[j as int].ids, trimmed_nonblank(sm.ids)),
                            langs: gv0[j as int].langs + sm.langs,
                        });
                        assert(gv0[j as int].path == p@);
                        assert(plan_step(gv0, sm, ef[i as int])
                            == Ok::<Seq<GroupModel>, MixErrorModel>(gv0.update(j as int, gm)));
                    }
                },
            }
        }
        proof {
            assert(plan_fold(groups_view(groups@), sv.skip(i + 1), ef.skip(i + 1)) == plan_fold(
                Seq::empty(),
                sv,
                ef,
            ));
        }
    }
    proof {
        assert(sv.skip(n as int) =~= Seq::<SelectionModel>::empty());
        assert(ef.skip(n as int) =~= Seq::<bool>::empty());
    }
    let ghost gv = groups_view(groups@);
    let video = match find_group(&groups, "video") {
        None => {
            return Err(MixError::MissingVideoTrack);
        },
        Some(j) => {
            proof {
                lemma_group_index(gv, "video"@);
            }
            Some(group_selection(&groups[j]))
        },
    };
    let audio = match find_group(&groups, "audio") {
        None => None,
        Some(j) => {
            proof {
                lemma_group_index(gv, "audio"@);
            }
            Some(group_selection(&groups[j]))
        },
    };
    let subtitle = match find_group(&groups, "subtitle") {
        None => None,
        Some(j) => {
            proof {
                lemma_group_index(gv, "subtitle"@);
            }
            Some(group_selection(&groups[j]))
        },
    };
    Ok(MixPlan { video, audio, subtitle })
}

} // verus!
