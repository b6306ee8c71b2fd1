use hanamirip::bytesize::format_bytes_readable;
use hanamirip::mix::{plan, MixError, MixTrackInput};
use hanamirip::paths::{ensure_mkv_extension, select_backend, ProbeBackend};
use hanamirip::probe::{
    build_attributes, build_mkvmerge_attributes, parse_generic_report, parse_matroska_report,
    GenericReport, GenericStream, MatroskaReport, MatroskaTrack, MatroskaTrackProperties,
    StreamDisposition, StreamTags,
};
use hanamirip::remux::{build_cmdline, format_arg, mix_failure_message, mix_script};
use hanamirip::tools::{resolve_tool, tool_candidates};

fn sel(path: &str, kind: &str, ids: &[&str], langs: &[(&str, &str)]) -> MixTrackInput {
    MixTrackInput {
        path: path.to_string(),
        kind: kind.to_string(),
        track_ids: ids.iter().map(|s| s.to_string()).collect(),
        track_langs: langs
            .iter()
            .map(|(a, b)| (a.to_string(), b.to_string()))
            .collect(),
    }
}

#[test]
fn matroska_extensions_select_matroska_backend() {
    assert_eq!(select_backend("movie.mkv"), ProbeBackend::Matroska);
    assert_eq!(select_backend("sound.MKA"), ProbeBackend::Matroska);
    assert_eq!(select_backend("/a/b/subs.mKs"), ProbeBackend::Matroska);
    assert_eq!(select_backend("clip.mp4"), ProbeBackend::Generic);
    assert_eq!(select_backend("noext"), ProbeBackend::Generic);
    assert_eq!(select_backend("dir.mkv/file"), ProbeBackend::Generic);
    assert_eq!(select_backend(".mkv"), ProbeBackend::Generic);
}

#[test]
fn byte_sizes_render_with_the_documented_units() {
    assert_eq!(format_bytes_readable(0), "0 B");
    assert_eq!(format_bytes_readable(1023), "1023 B");
    assert_eq!(format_bytes_readable(1024), "1.00 KB");
    assert_eq!(format_bytes_readable(1536), "1.50 KB");
    assert_eq!(format_bytes_readable(1048576), "1.00 MB");
    assert_eq!(format_bytes_readable(1073741824), "1.00 GB");
    assert_eq!(format_bytes_readable(1099511627776), "1.00 TB");
}

#[test]
fn huge_byte_sizes_stay_in_tb() {
    assert_eq!(format_bytes_readable(u64::MAX), "16777216.00 TB");
    assert!(format_bytes_readable(2 * 1099511627776 + 549755813888).ends_with(" TB"));
    assert_eq!(format_bytes_readable(2 * 1099511627776 + 549755813888), "2.50 TB");
}

#[test]
fn empty_plan_is_refused() {
    let r = plan(&Vec::new(), &Vec::new());
    assert!(matches!(r, Err(MixError::NoTracksProvided)));
}

#[test]
fn plan_without_video_is_refused() {
    let inputs = vec![sel("/media/a.mka", "audio", &["1"], &[])];
    let r = plan(&inputs, &vec![true]);
    assert!(matches!(r, Err(MixError::MissingVideoTrack)));
}

#[test]
fn conflicting_audio_sources_are_refused() {
    let inputs = vec![
        sel("/media/a.mka", "audio", &["1"], &[]),
        sel("/media/b.mka", "audio", &["2"], &[]),
    ];
    let r = plan(&inputs, &vec![true, true]);
    match r {
        Err(MixError::ConflictingSourceForKind { kind }) => assert_eq!(kind, "audio"),
        _ => panic!("expected a conflicting-source failure"),
    }
}

#[test]
fn missing_source_is_refused() {
    let inputs = vec![sel(" ", "video", &["0"], &[])];
    let r = plan(&inputs, &vec![true]);
    match r {
        Err(MixError::SourceMissing { path }) => assert_eq!(path, ""),
        _ => panic!("expected a missing-source failure"),
    }
    let inputs2 = vec![sel("/media/gone.mkv", "video", &["0"], &[])];
    let r2 = plan(&inputs2, &vec![false]);
    match r2 {
        Err(MixError::SourceMissing { path }) => assert_eq!(path, "/media/gone.mkv"),
        _ => panic!("expected a missing-source failure"),
    }
}

#[test]
fn blank_track_ids_are_dropped_and_merged() {
    let inputs = vec![
        sel("/m/a.mkv", "Video", &[" 0 ", "", "1"], &[]),
        sel("/m/a.mkv", "video", &["1", "2"], &[]),
    ];
    let p = plan(&inputs, &vec![true, true]).unwrap();
    let video = p.video.expect("video group");
    assert_eq!(video.source_path, "/m/a.mkv");
    assert_eq!(video.track_ids, vec!["0", "1", "2"]);
    assert!(p.audio.is_none());
    assert!(p.subtitle.is_none());
}

#[test]
fn entry_with_only_blank_ids_is_skipped() {
    let inputs = vec![
        sel("/m/a.mkv", "video", &["0"], &[]),
        sel("/m/other.mks", "subtitle", &["  ", ""], &[]),
    ];
    let p = plan(&inputs, &vec![true, true]).unwrap();
    assert!(p.subtitle.is_none());
    assert!(p.video.is_some());
}

#[test]
fn end_to_end_mix_commands_relabel_the_tracks() {
    let src = "/media/source.mkv";
    let inputs = vec![
        sel(src, "video", &["0"], &[]),
        sel(src, "audio", &["1"], &[]),
        sel(src, "subtitle", &["2"], &[("2", "zh-Hans")]),
    ];
    let p = plan(&inputs, &vec![true, true, true]).unwrap();
    let script = mix_script(&p, "/data", "/out/final", 42);
    assert_eq!(script.temp_dir, "/data/hanamirip-cn/mix-temp/42");
    assert_eq!(script.stages.len(), 3);

    let v = &script.stages[0];
    assert_eq!(v.kind, "video");
    assert_eq!(v.artifact, "/data/hanamirip-cn/mix-temp/42/video.mkv");
    let va: Vec<&str> = v.args.iter().map(|s| s.as_str()).collect();
    assert_eq!(
        va,
        vec![
            "-o",
            "/data/hanamirip-cn/mix-temp/42/video.mkv",
            "--video-tracks",
            "0",
            "--audio-tracks",
            "-1",
            "--subtitle-tracks",
            "-1",
            "--track-name",
            "0:",
            "--default-track-flag",
            "0:yes",
            "--forced-display-flag",
            "0:no",
            "--language",
            "0:ja",
            src,
        ]
    );

    let a = &script.stages[1];
    assert_eq!(a.kind, "audio");
    assert!(a.args.contains(&"--language".to_string()));
    assert!(a.args.contains(&"1:ja".to_string()));
    assert!(a.args.contains(&"1:yes".to_string()));
    assert!(a.args.contains(&"1:no".to_string()));

    let s = &script.stages[2];
    assert_eq!(s.kind, "subtitle");
    assert!(s.args.contains(&"2:zh-Hans".to_string()));
    assert!(s.args.contains(&"2:yes".to_string()));
    assert!(s.args.contains(&"2:no".to_string()));

    let ca: Vec<&str> = script.combine_args.iter().map(|x| x.as_str()).collect();
    assert_eq!(
        ca,
        vec![
            "-o",
            "/out/final.mkv",
            "/data/hanamirip-cn/mix-temp/42/video.mkv",
            "/data/hanamirip-cn/mix-temp/42/audio.mka",
            "/data/hanamirip-cn/mix-temp/42/subtitle.mks",
        ]
    );
    assert_eq!(script.output, "/out/final.mkv");
    assert_eq!(script.cleanup.len(), 3);
}

#[test]
fn distinct_timestamps_give_distinct_temp_dirs() {
    let inputs = vec![sel("/m/a.mkv", "video", &["0"], &[])];
    let p = plan(&inputs, &vec![true]).unwrap();
    let s1 = mix_script(&p, "/data", "/out/x.mkv", 1700000000001);
    let p2 = plan(&inputs, &vec![true]).unwrap();
    let s2 = mix_script(&p2, "/data", "/out/x.mkv", 1700000000002);
    assert_ne!(s1.temp_dir, s2.temp_dir);
    assert_ne!(s1.stages[0].artifact, s2.stages[0].artifact);
}

#[test]
fn output_path_gets_a_default_extension() {
    assert_eq!(ensure_mkv_extension("/out/final"), "/out/final.mkv");
    assert_eq!(ensure_mkv_extension("/out/final.avi"), "/out/final.avi");
    assert_eq!(ensure_mkv_extension("/out.dir/final"), "/out.dir/final.mkv");
}

#[test]
fn diagnostic_command_line_quotes_awkward_arguments() {
    assert_eq!(format_arg("plain"), "plain");
    assert_eq!(format_arg("two words"), "\"two words\"");
    assert_eq!(format_arg("say \"hi\""), "\"say \\\"hi\\\"\"");
    let args = vec!["-o".to_string(), "/tmp/a b.mkv".to_string()];
    assert_eq!(build_cmdline(&args), "mkvmerge -o \"/tmp/a b.mkv\"");
}

#[test]
fn failure_message_reports_code_streams_and_command() {
    let args = vec!["-o".to_string(), "/t/x.mkv".to_string()];
    let m = mix_failure_message(Some(2), " out ", "bad\n", &args);
    assert_eq!(
        m,
        "mkvmerge 执行失败 (code Some(2)): out bad\n命令: mkvmerge -o /t/x.mkv"
    );
    let m2 = mix_failure_message(None, "", "", &args);
    assert!(m2.starts_with("mkvmerge 执行失败 (code None): "));
}

#[test]
fn matroska_report_filters_and_normalizes_tracks() {
    let props = MatroskaTrackProperties {
        language: Some("jpn".to_string()),
        language_ietf: Some("ja".to_string()),
        track_name: Some("Main".to_string()),
        default_track: Some(true),
        forced_track: Some(false),
        codec_name: None,
        codec_id: Some("A_AAC".to_string()),
        encoding: None,
        pixel_dimensions: None,
        audio_channels: Some(2),
        audio_sampling_hz: Some(48000),
    };
    let report = MatroskaReport {
        container_type: Some("Matroska".to_string()),
        file_size: Some(1024),
        tracks: vec![
            MatroskaTrack {
                id: 0,
                track_type: Some("video".to_string()),
                codec: Some("AVC".to_string()),
                properties: None,
            },
            MatroskaTrack {
                id: 1,
                track_type: Some("audio".to_string()),
                codec: Some("AAC".to_string()),
                properties: Some(props),
            },
        ],
    };
    let r = parse_matroska_report(&report, "Audio");
    assert_eq!(r.tracks.len(), 1);
    let t = &r.tracks[0];
    assert_eq!(t.track_id, "1");
    // no explicit codec name: the track's codec field wins over the codec id
    assert_eq!(t.codec, "AAC");
    // the IETF-style tag is preferred over the legacy code
    assert_eq!(t.lang.as_deref(), Some("ja"));
    assert_eq!(t.language_name.as_deref(), Some("日语"));
    assert_eq!(t.attributes.as_deref(), Some("2ch 48000 Hz"));
    assert_eq!(t.container.as_deref(), Some("Matroska"));
    assert_eq!(t.file_size.as_deref(), Some("1.00 KB"));
    assert_eq!(t.is_default, Some(true));
    assert_eq!(t.is_forced, Some(false));
}

#[test]
fn matroska_subtitle_filter_accepts_both_spellings() {
    let mk = |tt: &str, id: u32| MatroskaTrack {
        id,
        track_type: Some(tt.to_string()),
        codec: None,
        properties: None,
    };
    let report = MatroskaReport {
        container_type: None,
        file_size: None,
        tracks: vec![mk("subtitles", 2), mk("subtitle", 3), mk("audio", 4)],
    };
    let r = parse_matroska_report(&report, "subtitle");
    let ids: Vec<&str> = r.tracks.iter().map(|t| t.track_id.as_str()).collect();
    assert_eq!(ids, vec!["2", "3"]);
    assert_eq!(r.tracks[0].codec, "unknown");
}

#[test]
fn generic_report_normalizes_streams() {
    let stream = GenericStream {
        index: Some(1),
        codec_name: Some("aac".to_string()),
        codec_type: Some("audio".to_string()),
        width: None,
        height: None,
        r_frame_rate: None,
        channels: Some(6),
        channel_layout: Some("5.1".to_string()),
        disposition: Some(StreamDisposition {
            default_flag: Some(1),
            forced_flag: Some(0),
        }),
        tags: Some(StreamTags {
            language: Some("chi".to_string()),
            title: Some("Surround".to_string()),
            encoding: None,
            charset: None,
        }),
    };
    let video = GenericStream {
        index: None,
        codec_name: None,
        codec_type: Some("video".to_string()),
        width: Some(1920),
        height: Some(1080),
        r_frame_rate: Some("24000/1001".to_string()),
        channels: None,
        channel_layout: None,
        disposition: None,
        tags: None,
    };
    let report = GenericReport {
        format_name: Some("mov,mp4".to_string()),
        size: Some("1048576".to_string()),
        streams: vec![video, stream],
    };
    let r = parse_generic_report(&report, "audio");
    assert_eq!(r.tracks.len(), 1);
    let t = &r.tracks[0];
    assert_eq!(t.track_id, "1");
    assert_eq!(t.codec, "aac");
    assert_eq!(t.lang.as_deref(), Some("chi"));
    assert_eq!(t.language_name.as_deref(), Some("中文"));
    assert_eq!(t.is_default, Some(true));
    assert_eq!(t.is_forced, Some(false));
    assert_eq!(t.attributes.as_deref(), Some("6ch 5.1"));
    assert_eq!(t.file_size.as_deref(), Some("1.00 MB"));

    let rv = parse_generic_report(&report, "video");
    assert_eq!(rv.tracks.len(), 1);
    let tv = &rv.tracks[0];
    assert_eq!(tv.track_id, "0");
    assert_eq!(tv.codec, "unknown");
    assert_eq!(tv.attributes.as_deref(), Some("1920x1080 24000/1001"));
}

#[test]
fn zero_frame_rate_placeholder_is_suppressed() {
    let video = GenericStream {
        index: Some(0),
        codec_name: Some("h264".to_string()),
        codec_type: Some("video".to_string()),
        width: Some(640),
        height: Some(480),
        r_frame_rate: Some("0/0".to_string()),
        channels: None,
        channel_layout: None,
        disposition: None,
        tags: None,
    };
    assert_eq!(build_attributes(&video).as_deref(), Some("640x480"));
    let props = MatroskaTrackProperties {
        language: None,
        language_ietf: None,
        track_name: None,
        default_track: None,
        forced_track: None,
        codec_name: None,
        codec_id: None,
        encoding: None,
        pixel_dimensions: Some("640x480".to_string()),
        audio_channels: None,
        audio_sampling_hz: None,
    };
    assert_eq!(build_mkvmerge_attributes(&props, "video").as_deref(), Some("640x480"));
    assert_eq!(build_mkvmerge_attributes(&props, "audio"), None);
    assert_eq!(build_mkvmerge_attributes(&props, "subtitle"), None);
}

#[test]
fn tool_resolution_takes_the_first_existing_candidate() {
    let c = tool_candidates("/res", "mkvmerge", true, true);
    assert_eq!(
        c,
        vec![
            "/res/bin/mkvmerge.exe",
            "/res/bin/mkvmerge",
            "../public/tools/mkvmerge.exe",
            "../public/tools/mkvmerge",
        ]
    );
    let picked = resolve_tool(&c, &vec![false, true, true, false], "mkvmerge");
    assert_eq!(picked.unwrap(), "/res/bin/mkvmerge");
    let c2 = tool_candidates("/res", "ffprobe", false, false);
    assert_eq!(c2, vec!["/res/bin/ffprobe"]);
    let missing = resolve_tool(&c2, &vec![false], "ffprobe");
    assert_eq!(
        missing.unwrap_err(),
        "未找到内置工具 ffprobe，请检查打包资源是否包含对应文件"
    );
}

#[test]
fn plan_errors_carry_their_report_text() {
    let r = plan(&Vec::new(), &Vec::new());
    assert_eq!(r.unwrap_err().message(), "未提供可合成的轨道");
    let r2 = plan(&vec![sel("", "video", &["0"], &[])], &vec![true]);
    assert_eq!(r2.unwrap_err().message(), "轨道文件路径为空");
    let r3 = plan(&vec![sel("/m/gone.mkv", "video", &["0"], &[])], &vec![false]);
    assert_eq!(r3.unwrap_err().message(), "轨道文件不存在: /m/gone.mkv");
    let r4 = plan(
        &vec![
            sel("/m/a.mka", "audio", &["1"], &[]),
            sel("/m/b.mka", "audio", &["2"], &[]),
        ],
        &vec![true, true],
    );
    assert_eq!(r4.unwrap_err().message(), "同一类型只支持一个文件：audio");
    let r5 = plan(&vec![sel("/m/a.mka", "audio", &["1"], &[])], &vec![true]);
    assert_eq!(r5.unwrap_err().message(), "请先检测并选择至少一个视频轨道");
}
