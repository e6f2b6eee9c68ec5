use tetsu::entity::{ContentRecord, FetchOutcome, Group, Segment, SessionError, Work};
use tetsu::facade::CacheFacade;

fn record(fid: u32, aid: u32, eid: u32, gid: u32) -> ContentRecord {
    ContentRecord {
        fid,
        aid,
        eid,
        gid,
        state: 1,
        size: 1234,
        ed2k: "0123456789abcdef0123456789abcdef".to_string(),
        colour_depth: String::new(),
        quality: "high".to_string(),
        source: "www".to_string(),
        audio_codec_list: vec!["AAC".to_string()],
        audio_bitrate_list: vec![128],
        video_codec: vec!["H264".to_string()],
        video_bitrate: vec!["2000".to_string()],
        video_resolution: vec!["1920x1080".to_string()],
        dub_language: "japanese".to_string(),
        sub_language: "english".to_string(),
        length_in_seconds: 1440,
        description: String::new(),
        aired_date: 1_600_000_000,
    }
}

fn work(aid: u32, romaji: &str) -> Work {
    Work {
        aid,
        dateflags: 0,
        year: "2020".to_string(),
        atype: "TV Series".to_string(),
        related_aid_list: vec![],
        related_aid_type: vec![],
        romaji_name: romaji.to_string(),
        kanji_name: String::new(),
        english_name: String::new(),
        short_name_list: vec![],
        episodes: 12,
        special_ep_count: 0,
        air_date: Some(1_500_000_000),
        end_date: None,
        picname: String::new(),
        nsfw: false,
        ann_id: 0,
        characterid_list: vec![],
        specials_count: 0,
        credits_count: 0,
        other_count: 0,
        trailer_count: 0,
        parody_count: 0,
    }
}

fn segment(eid: u32, aid: u32) -> Segment {
    Segment {
        eid,
        aid,
        length: 24,
        rating: 800,
        votes: 42,
        epno: "01".to_string(),
        eng: "First".to_string(),
        romaji: String::new(),
        kanji: String::new(),
        aired: 1_500_000_000,
        etype: 1,
    }
}

fn group(gid: u32, name: &str) -> Group {
    Group {
        gid,
        rating: 900,
        votes: 7,
        acount: 3,
        fcount: 40,
        name: name.to_string(),
        short: String::new(),
        irc_channel: String::new(),
        irc_server: String::new(),
        url: String::new(),
        picname: String::new(),
        foundeddate: 0,
        disbandeddate: 0,
        dateflags: 0,
        lastreleasedate: 0,
        lastactivitydate: 0,
        grouprelations: String::new(),
    }
}

#[test]
fn resolve_twice_hits_cache_without_second_fetch() {
    let mut f = CacheFacade::new();
    let path = "/media/show/ep01.mkv".to_string();
    let name = "ep01.mkv".to_string();

    // First pass: miss, so the caller hashes and fetches.
    assert_eq!(f.resolve_file_cached(&path, &name, 1234), None);
    let r = f.resolve_file_fetched(path.clone(), name.clone(), 1234, FetchOutcome::Found(record(7, 1, 2, 3)));
    assert!(matches!(r, Ok(Some(7))));

    // Second pass on the unchanged path: the index answers; no hash, no
    // remote call is needed.
    assert_eq!(f.resolve_file_cached(&path, &name, 1234), Some(7));
    let rec = f.record_by_id(7).expect("record cached");
    assert_eq!(rec.fid, 7);
    assert_eq!(rec.aid, 1);
    assert_eq!(rec.ed2k, "0123456789abcdef0123456789abcdef");
}

#[test]
fn moved_file_is_recognized_and_path_healed() {
    let mut f = CacheFacade::new();
    let old_path = "/media/a/ep01.mkv".to_string();
    let new_path = "/media/b/ep01.mkv".to_string();
    let name = "ep01.mkv".to_string();

    f.resolve_file_fetched(old_path.clone(), name.clone(), 999, FetchOutcome::Found(record(7, 1, 2, 3)))
        .unwrap();

    // The file moved: the path no longer matches, filename and size do.
    assert_eq!(f.resolve_file_cached(&new_path, &name, 999), Some(7));

    // The entry healed to the new location, so a prune of the old path
    // deletes nothing.
    assert_eq!(f.index_len(), 1);
    assert_eq!(f.index_path_at(0), &new_path);
    f.prune(&vec![old_path]);
    assert_eq!(f.index_len(), 1);
}

#[test]
fn name_size_collision_trusts_the_match() {
    // A different file that happens to share filename and byte size is
    // resolved to the recorded entry without rehashing: the heuristic
    // trusts the match by design.
    let mut f = CacheFacade::new();
    let path_a = "/media/a/ep01.mkv".to_string();
    let path_b = "/elsewhere/ep01.mkv".to_string();
    let name = "ep01.mkv".to_string();

    f.resolve_file_fetched(path_a, name.clone(), 555, FetchOutcome::Found(record(7, 1, 2, 3)))
        .unwrap();
    assert_eq!(f.resolve_file_cached(&path_b, &name, 555), Some(7));
}

#[test]
fn prune_removes_index_entry_but_keeps_entities() {
    let mut f = CacheFacade::new();
    let path_a = "/media/ep01.mkv".to_string();
    let path_b = "/media/ep02.mkv".to_string();

    f.resolve_file_fetched(path_a.clone(), "ep01.mkv".to_string(), 100, FetchOutcome::Found(record(7, 1, 2, 3)))
        .unwrap();
    f.resolve_file_fetched(path_b.clone(), "ep02.mkv".to_string(), 200, FetchOutcome::Found(record(8, 1, 4, 3)))
        .unwrap();
    f.resolve_work_fetched(FetchOutcome::Found(work(1, "Some Show")));
    f.resolve_segment_fetched(FetchOutcome::Found(segment(4, 1)));
    f.resolve_group_fetched(FetchOutcome::Found(group(3, "subs")));

    // The second file disappeared from disk.
    f.prune(&vec![path_b.clone()]);

    assert_eq!(f.index_len(), 1);
    assert_eq!(f.index_path_at(0), &path_a);
    // Entity rows key on remote identity and stay queryable.
    assert_eq!(f.record_by_id(8).map(|r| r.fid), Some(8));
    assert_eq!(f.resolve_work_cached(1).map(|w| w.romaji_name.clone()), Some("Some Show".to_string()));
    assert_eq!(f.resolve_segment_cached(4).map(|s| s.eid), Some(4));
    assert_eq!(f.resolve_group_cached(3).map(|g| g.name.clone()), Some("subs".to_string()));
}

#[test]
fn unknown_file_resolves_to_none_and_writes_nothing() {
    let mut f = CacheFacade::new();
    let path = "/media/unknown.mkv".to_string();
    let name = "unknown.mkv".to_string();

    let r = f.resolve_file_fetched(path.clone(), name.clone(), 42, FetchOutcome::NotFound);
    assert!(matches!(r, Ok(None)));
    assert_eq!(f.index_len(), 0);
    assert!(f.record_by_id(7).is_none());

    // The next scan misses again and would rehash, by design.
    assert_eq!(f.resolve_file_cached(&path, &name, 42), None);
    let r = f.resolve_file_fetched(path, name, 42, FetchOutcome::NotFound);
    assert!(matches!(r, Ok(None)));
    assert_eq!(f.index_len(), 0);
}

#[test]
fn session_fault_is_fatal_and_writes_nothing() {
    let mut f = CacheFacade::new();
    let r = f.resolve_file_fetched(
        "/media/x.mkv".to_string(),
        "x.mkv".to_string(),
        9,
        FetchOutcome::Failed,
    );
    assert!(matches!(r, Err(SessionError::RemoteSession)));
    assert_eq!(f.index_len(), 0);
}

#[test]
fn recording_same_name_and_size_replaces_prior_entry() {
    let mut f = CacheFacade::new();
    let name = "ep01.mkv".to_string();

    f.resolve_file_fetched("/old/ep01.mkv".to_string(), name.clone(), 777, FetchOutcome::Found(record(7, 1, 2, 3)))
        .unwrap();
    f.resolve_file_fetched("/new/ep01.mkv".to_string(), name.clone(), 777, FetchOutcome::Found(record(9, 1, 2, 3)))
        .unwrap();

    // One entry per (filename, size): the later recording won.
    assert_eq!(f.index_len(), 1);
    let new_path = "/new/ep01.mkv".to_string();
    assert_eq!(f.index_path_at(0), &new_path);
    assert_eq!(f.resolve_file_cached(&new_path, &name, 777), Some(9));
}

#[test]
fn restored_rows_answer_probes_like_fresh_ones() {
    // What the persistent store held at startup serves lookups exactly as
    // if it had just been fetched.
    let mut f = CacheFacade::new();
    f.restore_record(record(7, 1, 2, 3));
    f.restore_path_entry("/media/ep01.mkv".to_string(), "ep01.mkv".to_string(), 100, 7);
    let path = "/media/ep01.mkv".to_string();
    let name = "ep01.mkv".to_string();
    assert_eq!(f.resolve_file_cached(&path, &name, 100), Some(7));
    assert_eq!(f.record_by_id(7).map(|r| r.fid), Some(7));
    // Restoring a row with the same (filename, size) replaces, as a fresh
    // recording would.
    f.restore_path_entry("/moved/ep01.mkv".to_string(), name.clone(), 100, 7);
    assert_eq!(f.index_len(), 1);
}

#[test]
fn entity_cache_hits_skip_refetch_and_upsert_replaces() {
    let mut f = CacheFacade::new();
    assert!(f.resolve_work_cached(1).is_none());
    assert!(f.resolve_work_fetched(FetchOutcome::Found(work(1, "First Title"))));
    assert_eq!(f.resolve_work_cached(1).map(|w| w.romaji_name.clone()), Some("First Title".to_string()));

    // A re-fetch replaces the snapshot whole.
    assert!(f.resolve_work_fetched(FetchOutcome::Found(work(1, "Refreshed Title"))));
    assert_eq!(f.resolve_work_cached(1).map(|w| w.romaji_name.clone()), Some("Refreshed Title".to_string()));

    // Failed or missing fetches cache nothing.
    assert!(!f.resolve_work_fetched(FetchOutcome::NotFound));
    assert!(!f.resolve_work_fetched(FetchOutcome::Failed));
    assert!(f.resolve_work_cached(2).is_none());
}
