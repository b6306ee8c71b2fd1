//! Construction of the staged muxer invocations for a planned mix.
//!
//! From a consolidated plan this module derives a *script*: one per-kind
//! extraction command per selected kind (video, audio, subtitle, in that
//! fixed order), a final combine command that must only run after every
//! extraction succeeded, the list of intermediate artifacts to delete on
//! overall success, and the final output path. The caller performs the
//! process invocations and the file-system work; everything it passes to the
//! muxer is pinned down here.
//!
//! Paths are joined with `/`. Each mix call names its temporary directory
//! after the starting timestamp, so calls with distinct timestamps can never
//! collide on temporary paths.

use vstd::prelude::*;
use crate::decimal::{dec_int_spec, i64_to_dec, lemma_dec_int_injective};
use crate::mix::{ConsolidatedSelection, GroupModel, MixPlan, PlanModel, langs_view, group_model};
use crate::paths::{ensure_mkv_extension, extension_spec};
use crate::text::{join_spec, join_strings, lit_string, str_eq, strings_view, trim_spec,
    trim_string};

verus! {

/// The default track language written for a kind when no per-track override
/// is supplied.
pub open spec fn lang_for_kind_spec(kind: Seq<char>) -> Seq<char> {
    if kind == "video"@ {
        "ja"@
    } else if kind == "audio"@ {
        "ja"@
    } else if kind == "subtitle"@ {
        "zh-Hans"@
    } else {
        "und"@
    }
}

/// The default track language for a (lowercased) kind.
pub fn lang_for_kind(kind: &str) -> (r: String)
    ensures
        r@ == lang_for_kind_spec(kind@),
{
    if str_eq(kind, "video") {
        lit_string("ja")
    } else if str_eq(kind, "audio") {
        lit_string("ja")
    } else if str_eq(kind, "subtitle") {
        lit_string("zh-Hans")
    } else {
        lit_string("und")
    }
}

/// The intermediate artifact extension for a kind.
pub open spec fn ext_for_kind_spec(kind: Seq<char>) -> Seq<char> {
    if kind == "video"@ {
        "mkv"@
    } else if kind == "audio"@ {
        "mka"@
    } else if kind == "subtitle"@ {
        "mks"@
    } else {
        "mkv"@
    }
}

fn ext_for_kind(kind: &str) -> (r: String)
    ensures
        r@ == ext_for_kind_spec(kind@),
{
    if str_eq(kind, "video") {
        lit_string("mkv")
    } else if str_eq(kind, "audio") {
        lit_string("mka")
    } else if str_eq(kind, "subtitle") {
        lit_string("mks")
    } else {
        lit_string("mkv")
    }
}

/// The language override for a track id: the last matching pair wins.
pub open spec fn lookup_lang(langs: Seq<(Seq<char>, Seq<char>)>, id: Seq<char>) -> Option<
    Seq<char>,
>
    decreases langs.len(),
{
    if langs.len() == 0 {
        None
    } else if langs.last().0 == id {
        Some(langs.last().1)
    } else {
        lookup_lang(langs.drop_last(), id)
    }
}

fn lookup_lang_exec(langs: &Vec<(String, String)>, id: &str) -> (r: Option<String>)
    ensures
        match r {
            Some(l) => lookup_lang(langs_view(langs@), id@) == Some(l@),
            None => lookup_lang(langs_view(langs@), id@) is None,
        },
{
    let ghost lv = langs_view(langs@);
    let mut i = langs.len();
    proof {
        assert(lv.take(langs@.len() as int) =~= lv);
    }
    while i > 0
        invariant
            lv == langs_view(langs@),
            0 <= i <= langs@.len(),
            lookup_lang(lv.take(i as int), id@) == lookup_lang(lv, id@),
        decreases i,
    {
        proof {
            assert(lv.take(i as int).last() == lv[i - 1]);
            assert(lv.take(i as int).drop_last() =~= lv.take(i - 1));
        }
        if str_eq(langs[i - 1].0.as_str(), id) {
            return Some(langs[i - 1].1.clone());
        }
        i = i - 1;
    }
    proof {
        assert(lv.take(0) =~= Seq::<(Seq<char>, Seq<char>)>::empty());
    }
    None
}

fn concat_str(a: String, b: &str) -> (r: String)
    ensures
        r@ == a@ + b@,
{
    a.concat(b)
}

/// The kind-selector arguments of a stage command: the selected kind's ids,
/// with the other two kind selectors explicitly disabled.
pub open spec fn selector_args_spec(kind: Seq<char>, ids: Seq<Seq<char>>) -> Seq<Seq<char>> {
    if kind == "video"@ {
        seq!["--video-tracks"@, join_spec(ids, ","@), "--audio-tracks"@, "-1"@, "--subtitle-tracks"@, "-1"@]
    } else if kind == "audio"@ {
        seq!["--audio-tracks"@, join_spec(ids, ","@), "--video-tracks"@, "-1"@, "--subtitle-tracks"@, "-1"@]
    } else if kind == "subtitle"@ {
        seq!["--subtitle-tracks"@, join_spec(ids, ","@), "--video-tracks"@, "-1"@, "--audio-tracks"@, "-1"@]
    } else {
        Seq::empty()
    }
}

/// The per-track arguments of a stage command: for every selected id, clear
/// the display name, force default=yes and forced-display=no, and set the
/// language to the override for that id, else the kind's default.
pub open spec fn per_track_args_spec(
    ids: Seq<Seq<char>>,
    langs: Seq<(Seq<char>, Seq<char>)>,
    fallback: Seq<char>,
) -> Seq<Seq<char>>
    decreases ids.len(),
{
    if ids.len() == 0 {
        Seq::empty()
    } else {
        let id = ids[0];
        let lang = match lookup_lang(langs, id) {
            Some(l) => l,
            None => fallback,
        };
        seq![
            "--track-name"@,
            id + ":"@,
            "--default-track-flag"@,
            id + ":yes"@,
            "--forced-display-flag"@,
            id + ":no"@,
            "--language"@,
            id + ":"@ + lang,
        ] + per_track_args_spec(ids.drop_first(), langs, fallback)
    }
}

/// The whole argument list of one per-kind extraction command.
pub open spec fn stage_args_spec(kind: Seq<char>, g: GroupModel, artifact: Seq<char>) -> Seq<
    Seq<char>,
> {
    seq!["-o"@, artifact] + selector_args_spec(kind, g.ids) + per_track_args_spec(
        g.ids,
        g.langs,
        lang_for_kind_spec(kind),
    ) + seq![g.path]
}

/// The temporary directory of a mix call that started at a timestamp.
pub open spec fn temp_dir_spec(data_dir: Seq<char>, millis: int) -> Seq<char> {
    data_dir + "/hanamirip-cn/mix-temp/"@ + dec_int_spec(millis)
}

/// The intermediate artifact path of a kind inside a temporary directory.
pub open spec fn stage_file_spec(temp_dir: Seq<char>, kind: Seq<char>) -> Seq<char> {
    temp_dir + "/"@ + kind + "."@ + ext_for_kind_spec(kind)
}

/// Calls with distinct timestamps never collide: their temporary
/// directories differ whatever the shared data directory is.
pub proof fn lemma_distinct_timestamps_distinct_temp_dirs(data_dir: Seq<char>, t1: int, t2: int)
    requires
        t1 != t2,
    ensures
        temp_dir_spec(data_dir, t1) != temp_dir_spec(data_dir, t2),
{
    let prefix = data_dir + "/hanamirip-cn/mix-temp/"@;
    if temp_dir_spec(data_dir, t1) == temp_dir_spec(data_dir, t2) {
        let a = temp_dir_spec(data_dir, t1);
        assert(dec_int_spec(t1) =~= a.subrange(prefix.len() as int, a.len() as int));
        assert(dec_int_spec(t2) =~= a.subrange(prefix.len() as int, a.len() as int));
        lemma_dec_int_injective(t1, t2);
    }
}

/// One staged muxer invocation: the kind it extracts, the artifact it
/// writes, and its full argument list.
pub struct MixCommand {
    pub kind: String,
    pub artifact: String,
    pub args: Vec<String>,
}

/// The mathematical value of one staged invocation.
pub struct CommandModel {
    pub kind: Seq<char>,
    pub artifact: Seq<char>,
    pub args: Seq<Seq<char>>,
}

impl View for MixCommand {
    type V = CommandModel;

    open spec fn view(&self) -> CommandModel {
        CommandModel { kind: self.kind@, artifact: self.artifact@, args: strings_view(self.args@) }
    }
}

/// Everything a mix run executes: the extraction stages in fixed order, the
/// final combine arguments, the artifacts to delete on success, and the
/// final output path.
pub struct MixScript {
    pub temp_dir: String,
    pub stages: Vec<MixCommand>,
    pub combine_args: Vec<String>,
    pub cleanup: Vec<String>,
    pub output: String,
}

/// The mathematical value of a mix script.
pub struct ScriptModel {
    pub temp_dir: Seq<char>,
    pub stages: Seq<CommandModel>,
    pub combine_args: Seq<Seq<char>>,
    pub cleanup: Seq<Seq<char>>,
    pub output: Seq<char>,
}

impl View for MixScript {
    type V = ScriptModel;

    open spec fn view(&self) -> ScriptModel {
        ScriptModel {
            temp_dir: self.temp_dir@,
            stages: self.stages@.map_values(|c: MixCommand| c@),
            combine_args: strings_view(self.combine_args@),
            cleanup: strings_view(self.cleanup@),
            output: self.output@,
        }
    }
}

/// The stage command of one kind of a plan.
pub open spec fn command_spec(kind: Seq<char>, g: GroupModel, temp_dir: Seq<char>) -> CommandModel {
    CommandModel {
        kind: kind,
        artifact: stage_file_spec(temp_dir, kind),
        args: stage_args_spec(kind, g, stage_file_spec(temp_dir, kind)),
    }
}

/// The stage commands of a plan, in the fixed video, audio, subtitle order.
pub open spec fn stages_spec(p: PlanModel, temp_dir: Seq<char>) -> Seq<CommandModel> {
    (match p.video {
        Some(g) => seq![command_spec("video"@, g, temp_dir)],
        None => Seq::empty(),
    }) + (match p.audio {
        Some(g) => seq![command_spec("audio"@, g, temp_dir)],
        None => Seq::empty(),
    }) + (match p.subtitle {
        Some(g) => seq![command_spec("subtitle"@, g, temp_dir)],
        None => Seq::empty(),
    })
}

/// The artifact paths of a plan, in the fixed order.
pub open spec fn artifacts_spec(p: PlanModel, temp_dir: Seq<char>) -> Seq<Seq<char>> {
    (match p.video {
        Some(g) => seq![stage_file_spec(temp_dir, "video"@)],
        None => Seq::empty(),
    }) + (match p.audio {
        Some(g) => seq![stage_file_spec(temp_dir, "audio"@)],
        None => Seq::empty(),
    }) + (match p.subtitle {
        Some(g) => seq![stage_file_spec(temp_dir, "subtitle"@)],
        None => Seq::empty(),
    })
}

/// The caller's output path with the default `mkv` extension applied.
pub open spec fn output_path_spec(out: Seq<char>) -> Seq<char> {
    match extension_spec(out) {
        Some(e) => out,
        None => out + ".mkv"@,
    }
}

/// The whole script of a mix call that started at a timestamp.
pub open spec fn script_spec(p: PlanModel, data_dir: Seq<char>, out: Seq<char>, millis: int) -> ScriptModel {
    let temp_dir = temp_dir_spec(data_dir, millis);
    ScriptModel {
        temp_dir: temp_dir,
        stages: stages_spec(p, temp_dir),
        combine_args: seq!["-o"@, output_path_spec(out)] + artifacts_spec(p, temp_dir),
        cleanup: artifacts_spec(p, temp_dir),
        output: output_path_spec(out),
    }
}

/// Build the full argument list of one per-kind extraction command.
pub fn stage_args(kind: &str, sel: &ConsolidatedSelection, artifact: &str) -> (r: Vec<String>)
    ensures
        strings_view(r@) == stage_args_spec(kind@, group_model(kind@, *sel), artifact@),
{
    let ghost gm = group_model(kind@, *sel);
    let mut args: Vec<String> = Vec::new();
    args.push(lit_string("-o"));
    args.push(lit_string(artifact));
    let joined = join_strings(&sel.track_ids, ",");
    proof {
        assert(joined@ == join_spec(gm.ids, ","@));
    }
    if str_eq(kind, "video") {
        args.push(lit_string("--video-tracks"));
        args.push(joined);
        args.push(lit_string("--audio-tracks"));
        args.push(lit_string("-1"));
        args.push(lit_string("--subtitle-tracks"));
        args.push(lit_string("-1"));
    } else if str_eq(kind, "audio") {
        args.push(lit_string("--audio-tracks"));
        args.push(joined);
        args.push(lit_string("--video-tracks"));
        args.push(lit_string("-1"));
        args.push(lit_string("--subtitle-tracks"));
        args.push(lit_string("-1"));
    } else if str_eq(kind, "subtitle") {
        args.push(lit_string("--subtitle-tracks"));
        args.push(joined);
        args.push(lit_string("--video-tracks"));
        args.push(lit_string("-1"));
        args.push(lit_string("--audio-tracks"));
        args.push(lit_string("-1"));
    }
    proof {
        assert(strings_view(args@) =~= seq!["-o"@, artifact@] + selector_args_spec(kind@, gm.ids));
    }
    let fallback = lang_for_kind(kind);
    let ghost base = strings_view(args@);
    let n = sel.track_ids.len();
    proof {
        assert(gm.ids.skip(0) =~= gm.ids);
    }
    for i in 0..n
        invariant
            n == sel.track_ids@.len(),
            gm == group_model(kind@, *sel),
            fallback@ == lang_for_kind_spec(kind@),
            base + per_track_args_spec(gm.ids, gm.langs, fallback@) =~= strings_view(args@)
                + per_track_args_spec(gm.ids.skip(i as int), gm.langs, fallback@),
    {
        let id = &sel.track_ids[i];
        proof {
            assert(gm.ids.skip(i as int)[0] == id@);
            assert(gm.ids.skip(i as int).drop_first() =~= gm.ids.skip(i + 1));
        }
        let lang: String = match lookup_lang_exec(&sel.track_langs, id.as_str()) {
            Some(l) => l,
            None => fallback.clone(),
        };
        let ghost args0 = strings_view(args@);
        args.push(lit_string("--track-name"));
        args.push(concat_str(id.clone(), ":"));
        args.push(lit_string("--default-track-flag"));
        args.push(concat_str(id.clone(), ":yes"));
        args.push(lit_string("--forced-display-flag"));
        args.push(concat_str(id.clone(), ":no"));
        args.push(lit_string("--language"));
        let mut lang_arg = concat_str(id.clone(), ":");
        lang_arg = concat_str(lang_arg, lang.as_str());
        args.push(lang_arg);
        proof {
            let block = seq![
                "--track-name"@,
                id@ + ":"@,
                "--default-track-flag"@,
                id@ + ":yes"@,
                "--forced-display-flag"@,
                id@ + ":no"@,
                "--language"@,
                id@ + ":"@ + (match lookup_lang(gm.langs, id@) {
                    Some(l) => l,
                    None => fallback@,
                }),
            ];
            assert(strings_view(args@) =~= args0 + block);
            let pts = per_track_args_spec(gm.ids.skip(i as int), gm.langs, fallback@);
            let pts1 = per_track_args_spec(gm.ids.skip(i + 1), gm.langs, fallback@);
            assert(pts =~= block + pts1);
            assert(args0 + pts =~= (args0 + block) + pts1);
        }
    }
    proof {
        assert(per_track_args_spec(gm.ids.skip(n as int), gm.langs, fallback@) =~= Seq::<
            Seq<char>,
        >::empty());
        assert(strings_view(args@) =~= base + per_track_args_spec(gm.ids, gm.langs, fallback@));
    }
    args.push(sel.source_path.clone());
    proof {
        assert(strings_view(args@) =~= stage_args_spec(kind@, gm, artifact@));
    }
    args
}

fn stage_command(kind: &str, sel: &ConsolidatedSelection, temp_dir: &str) -> (r: MixCommand)
    ensures
        r@ == command_spec(kind@, group_model(kind@, *sel), temp_dir@),
{
    let mut artifact = lit_string(temp_dir);
    artifact = concat_str(artifact, "/");
    artifact = concat_str(artifact, kind);
    artifact = concat_str(artifact, ".");
    artifact = concat_str(artifact, ext_for_kind(kind).as_str());
    proof {
        assert(artifact@ == stage_file_spec(temp_dir@, kind@));
    }
    let args = stage_args(kind, sel, artifact.as_str());
    MixCommand { kind: lit_string(kind), artifact, args }
}

/// Build the whole script of a mix call from its plan, the application data
/// directory, the caller's output path, and the starting timestamp.
pub fn mix_script(plan: &MixPlan, data_dir: &str, output_path: &str, millis: i64) -> (r: MixScript)
    ensures
        r@ == script_spec(plan@, data_dir@, output_path@, millis as int),
{
    let mut temp_dir = lit_string(data_dir);
    temp_dir = concat_str(temp_dir, "/hanamirip-cn/mix-temp/");
    temp_dir = concat_str(temp_dir, i64_to_dec(millis).as_str());
    proof {
        assert(temp_dir@ == temp_dir_spec(data_dir@, millis as int));
    }
    let mut stages: Vec<MixCommand> = Vec::new();
    let mut artifacts: Vec<String> = Vec::new();
    match &plan.video {
        Some(sel) => {
            let c = stage_command("video", sel, temp_dir.as_str());
            artifacts.push(c.artifact.clone());
            stages.push(c);
        },
        None => {},
    }
    match &plan.audio {
        Some(sel) => {
            let c = stage_command("audio", sel, temp_dir.as_str());
            artifacts.push(c.artifact.clone());
            stages.push(c);
        },
        None => {},
    }
    match &plan.subtitle {
        Some(sel) => {
            let c = stage_command("subtitle", sel, temp_dir.as_str());
            artifacts.push(c.artifact.clone());
            stages.push(c);
        },
        None => {},
    }
    proof {
        assert(stages@.map_values(|c: MixCommand| c@) =~= stages_spec(plan@, temp_dir@));
        assert(strings_view(artifacts@) =~= artifacts_spec(plan@, temp_dir@));
    }
    let output = ensure_mkv_extension(output_path);
    proof {
        assert(output@ == output_path_spec(output_path@));
    }
    let mut combine_args: Vec<String> = Vec::new();
    combine_args.push(lit_string("-o"));
    combine_args.push(output.clone());
    let na = artifacts.len();
    for i in 0..na
        invariant
            na == artifacts@.len(),
            output@ == output_path_spec(output_path@),
            strings_view(combine_args@) =~= seq!["-o"@, output_path_spec(output_path@)] + strings_view(
                artifacts@,
            ).take(i as int),
    {
        let ghost before = strings_view(combine_args@);
        combine_args.push(artifacts[i].clone());
        proof {
            assert(strings_view(combine_args@) =~= before.push(strings_view(artifacts@)[i as int]));
            assert(strings_view(combine_args@) =~= seq!["-o"@, output_path_spec(output_path@)]
                + strings_view(artifacts@).take(i + 1));
        }
    }
    proof {
        assert(strings_view(artifacts@).take(na as int) =~= strings_view(artifacts@));
    }
    MixScript { temp_dir, stages, combine_args, cleanup: artifacts, output }
}

/// Relies on `chrono::Utc::now` and `chrono::DateTime::timestamp_millis`:
/// the current time, as milliseconds since the Unix epoch. Nothing can be
/// promised of a clock reading.
#[verifier::external_body]
fn current_unix_millis() -> i64 {
    chrono::Utc::now().timestamp_millis()
}

/// Build the script of a new mix call, stamped with the time it starts;
/// whatever the clock returned, the script is exactly the one that
/// [`mix_script`] derives for that timestamp.
pub fn prepare_mix(plan: &MixPlan, data_dir: &str, output_path: &str) -> (r: MixScript)
    ensures
        exists|t: int| r@ == script_spec(plan@, data_dir@, output_path@, t),
{
    let millis = current_unix_millis();
    let s = mix_script(plan, data_dir, output_path, millis);
    proof {
        assert(s@ == script_spec(plan@, data_dir@, output_path@, millis as int));
    }
    s
}

/// Whether an argument is quoted in the diagnostic command line.
pub open spec fn needs_quoting(s: Seq<char>) -> bool {
    exists|i: int| 0 <= i < s.len() && ((#[trigger] s[i]) == ' ' || s[i] == '\t' || s[i] == '"')
}

/// A double quote becomes backslash-quote; other characters are unchanged.
pub open spec fn escape_quotes(s: Seq<char>) -> Seq<char>
    decreases s.len(),
{
    if s.len() == 0 {
        Seq::empty()
    } else {
        (if s[0] == '"' {
            seq!['\\', '"']
        } else {
            seq![s[0]]
        }) + escape_quotes(s.drop_first())
    }
}

/// The diagnostic rendering of one argument: quoted, with inner quotes
/// escaped, when it holds whitespace or quotes; unchanged otherwise.
pub open spec fn format_arg_spec(s: Seq<char>) -> Seq<char> {
    if needs_quoting(s) {
        seq!['"'] + escape_quotes(s) + seq!['"']
    } else {
        s
    }
}

/// Render one argument for the diagnostic command line.
pub fn format_arg(arg: &str) -> (r: String)
    ensures
        r@ == format_arg_spec(arg@),
{
    let v = crate::text::str_chars(arg);
    let n = v.len();
    let mut quote = false;
    for i in 0..n
        invariant
            n == v@.len(),
            v@ == arg@,
            quote == exists|j: int|
                0 <= j < i && ((#[trigger] v@[j]) == ' ' || v@[j] == '\t' || v@[j] == '"'),
    {
        if v[i] == ' ' || v[i] == '\t' || v[i] == '"' {
            quote = true;
        }
    }
    if !quote {
        proof {
            assert(!needs_quoting(arg@));
        }
        return lit_string(arg);
    }
    let mut out: Vec<char> = Vec::new();
    out.push('"');
    proof {
        assert(v@.skip(0) =~= v@);
        assert(out@ =~= seq!['"'] + Seq::<char>::empty());
    }
    for i in 0..n
        invariant
            n == v@.len(),
            v@ == arg@,
            seq!['"'] + escape_quotes(v@) =~= out@ + escape_quotes(v@.skip(i as int)),
    {
        let ghost out0 = out@;
        if v[i] == '"' {
            out.push('\\');
            out.push('"');
        } else {
            out.push(v[i]);
        }
        proof {
            let block: Seq<char> = if v@[i as int] == '"' {
                seq!['\\', '"']
            } else {
                seq![v@[i as int]]
            };
            assert(out@ =~= out0 + block);
            assert(v@.skip(i as int)[0] == v@[i as int]);
            assert(v@.skip(i as int).drop_first() =~= v@.skip(i + 1));
            assert(escape_quotes(v@.skip(i as int)) =~= block + escape_quotes(v@.skip(i + 1)));
        }
    }
    proof {
        assert(escape_quotes(v@.skip(n as int)) =~= Seq::<char>::empty());
        assert(out@ =~= seq!['"'] + escape_quotes(v@));
    }
    out.push('"');
    proof {
        assert(needs_quoting(arg@));
        assert(out@ =~= format_arg_spec(arg@));
    }
    crate::text::chars_to_string(&out)
}

/// The diagnostic command line: the muxer name and every argument rendered
/// by [`format_arg_spec`], joined with single spaces. It is for reading
/// only, never re-executed.
pub open spec fn cmdline_spec(args: Seq<Seq<char>>) -> Seq<char> {
    join_spec(
        seq![format_arg_spec("mkvmerge"@)] + args.map_values(|a: Seq<char>| format_arg_spec(a)),
        " "@,
    )
}

/// Reconstruct the diagnostic command line of a muxer invocation.
pub fn build_cmdline(args: &Vec<String>) -> (r: String)
    ensures
        r@ == cmdline_spec(strings_view(args@)),
{
    let mut parts: Vec<String> = Vec::new();
    parts.push(format_arg("mkvmerge"));
    let n = args.len();
    for i in 0..n
        invariant
            n == args@.len(),
            strings_view(parts@) =~= seq![format_arg_spec("mkvmerge"@)] + strings_view(
                args@,
            ).map_values(|a: Seq<char>| format_arg_spec(a)).take(i as int),
    {
        let ghost before = strings_view(parts@);
        parts.push(format_arg(args[i].as_str()));
        proof {
            assert(strings_view(parts@) =~= before.push(
                format_arg_spec(strings_view(args@)[i as int]),
            ));
            assert(strings_view(parts@) =~= seq![format_arg_spec("mkvmerge"@)]
                + strings_view(args@).map_values(|a: Seq<char>| format_arg_spec(a)).take(i + 1));
        }
    }
    proof {
        let mapped = strings_view(args@).map_values(|a: Seq<char>| format_arg_spec(a));
        assert(mapped.take(n as int) =~= mapped);
    }
    join_strings(&parts, " ")
}

/// The report of a muxer invocation that exited with a failure: its exit
/// code (if the process was not killed), its trimmed output streams, and the
/// reconstructed command line.
pub open spec fn failure_message_spec(
    code: Option<int>,
    out: Seq<char>,
    err: Seq<char>,
    args: Seq<Seq<char>>,
) -> Seq<char> {
    "mkvmerge 执行失败 (code "@ + (match code {
        Some(c) => "Some("@ + dec_int_spec(c) + ")"@,
        None => "None"@,
    }) + "): "@ + trim_spec(out) + " "@ + trim_spec(err) + "\n命令: "@ + cmdline_spec(args)
}

/// Build the failure report of a muxer invocation that exited non-zero.
pub fn mix_failure_message(
    code: Option<i32>,
    stdout: &str,
    stderr: &str,
    args: &Vec<String>,
) -> (r: String)
    ensures
        r@ == failure_message_spec(
            match code {
                Some(c) => Some(c as int),
                None => None,
            },
            stdout@,
            stderr@,
            strings_view(args@),
        ),
{
    let mut msg = lit_string("mkvmerge 执行失败 (code ");
    match code {
        Some(c) => {
            msg = concat_str(msg, "Some(");
            msg = concat_str(msg, i64_to_dec(c as i64).as_str());
            msg = concat_str(msg, ")");
        },
        None => {
            msg = concat_str(msg, "None");
        },
    }
    msg = concat_str(msg, "): ");
    msg = concat_str(msg, trim_string(stdout).as_str());
    msg = concat_str(msg, " ");
    msg = concat_str(msg, trim_string(stderr).as_str());
    msg = concat_str(msg, "\n命令: ");
    msg = concat_str(msg, build_cmdline(args).as_str());
    msg
}

} // verus!
