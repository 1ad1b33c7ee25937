use ugoira_dl::illust::{MasterIllustIdProvider, ProfileIllustIdProvider, SimpleIllustIdProvider};
use ugoira_dl::pipeline::{sift, Format, Pipeline};
use ugoira_dl::pixiv::error::Error;
use ugoira_dl::pixiv::types::{IllustId, Profile, ProfileId, UgoiraDelay};
use ugoira_dl::save::{SaveParams, UgoiraSaver};
use ugoira_dl::ugoira::UgoiraFrame;

fn frame(name: &str, delay: u32) -> UgoiraFrame {
    UgoiraFrame { file: String::from(name), data: name.as_bytes().to_vec(), delay: UgoiraDelay(delay) }
}

fn ids(stream: &[Result<IllustId, Error>]) -> Vec<u32> {
    let mut out = Vec::new();
    for item in stream {
        if let Ok(id) = item {
            out.push(id.0);
        }
    }
    out.sort();
    out
}

#[test]
fn simple_provider_yields_its_identifier() {
    let stream = SimpleIllustIdProvider::new(IllustId(9)).into_stream::<Error>();
    assert_eq!(stream.len(), 1);
    assert!(matches!(stream[0], Ok(IllustId(9))));
}

#[test]
fn owner_yields_every_illustration_of_the_listing() {
    let provider = ProfileIllustIdProvider::new(ProfileId(5));
    assert_eq!(provider.request(), "https://www.pixiv.net/ajax/user/5/profile/all");
    let stream =
        provider.into_stream::<Error>(Ok(Profile { illusts: vec![IllustId(3), IllustId(4)] }));
    assert_eq!(stream.len(), 2);
    assert!(matches!(stream[0], Ok(IllustId(3))));
    assert!(matches!(stream[1], Ok(IllustId(4))));
}

#[test]
fn failed_lookup_yields_one_failure_and_nothing_else() {
    let provider = ProfileIllustIdProvider::new(ProfileId(5));
    let stream = provider.into_stream(Err(Error::NoData));
    assert_eq!(stream.len(), 1);
    assert!(matches!(stream[0], Err(Error::NoData)));
}

#[test]
fn owner_without_illustrations_yields_nothing() {
    let provider = ProfileIllustIdProvider::new(ProfileId(5));
    assert!(provider.into_stream::<Error>(Ok(Profile { illusts: Vec::new() })).is_empty());
}

#[test]
fn discovery_merges_explicit_and_owner_identifiers() {
    let master =
        MasterIllustIdProvider::new(vec![IllustId(1), IllustId(2)], vec![ProfileId(70)]);
    let started = master.into_stream::<Error>();
    assert_eq!(started.ready.len(), 2);
    assert_eq!(started.pending.len(), 1);
    assert_eq!(started.pending[0].profile_id, ProfileId(70));
    let mut pending = started.pending;
    let owner = pending.pop().unwrap();
    let expanded = owner.into_stream(Ok(Profile { illusts: vec![IllustId(3), IllustId(4)] }));

    let mut owner_last = started.ready;
    let mut owner_first: Vec<Result<IllustId, Error>> = Vec::new();
    for item in &expanded {
        owner_first.push(Ok(*item.as_ref().unwrap()));
    }
    for item in &owner_last {
        owner_first.push(Ok(*item.as_ref().unwrap()));
    }
    owner_last.extend(expanded);
    assert_eq!(ids(&owner_last), vec![1, 2, 3, 4]);
    assert_eq!(ids(&owner_first), vec![1, 2, 3, 4]);
}

#[test]
fn discovery_does_not_remove_repeated_identifiers() {
    let master = MasterIllustIdProvider::new(vec![IllustId(1), IllustId(1)], Vec::new());
    let started = master.into_stream::<Error>();
    assert_eq!(ids(&started.ready), vec![1, 1]);
    assert!(started.pending.is_empty());
}

#[test]
fn discovery_keeps_owners_in_order() {
    let master =
        MasterIllustIdProvider::new(Vec::new(), vec![ProfileId(3), ProfileId(1), ProfileId(2)]);
    let started = master.into_stream::<Error>();
    assert!(started.ready.is_empty());
    let owners: Vec<u32> = started.pending.iter().map(|p| p.profile_id.0).collect();
    assert_eq!(owners, vec![3, 1, 2]);
}

#[test]
fn default_format_is_gif() {
    assert_eq!(Format::default(), Format::Gif);
    assert_eq!(Format::Gif.get_extension(), "gif");
    assert_eq!(Format::Webm.get_extension(), "webm");
}

#[test]
fn discovered_identifier_becomes_its_own_key() {
    let routed = Pipeline::new(Format::Gif).discovered(Ok(IllustId(77)));
    assert!(!routed.report.failure);
    assert_eq!(routed.report.text, "Added illustration 77 to download queue");
    assert_eq!(routed.forward, Some((IllustId(77), IllustId(77))));
}

#[test]
fn failed_discovery_is_reported_and_dropped() {
    let routed = Pipeline::new(Format::Gif).discovered(Err(String::from("gone")));
    assert!(routed.report.failure);
    assert_eq!(routed.report.text, "Error while obtaining illustration id: gone");
    assert!(routed.forward.is_none());
    let routed = Pipeline::new(Format::Gif).discovered(Err(Error::NoData.to_string()));
    assert_eq!(
        routed.report.text,
        "Error while obtaining illustration id: response has no data"
    );
}

#[test]
fn acquired_frames_go_to_the_encoder_under_their_key() {
    let routed =
        Pipeline::new(Format::Webm).acquired(IllustId(5), Ok(vec![frame("a", 1), frame("b", 2)]));
    assert!(!routed.report.failure);
    assert_eq!(routed.report.text, "Added illustration 5 to encode queue");
    let (key, encoder) = routed.forward.unwrap();
    assert_eq!(key, IllustId(5));
    assert_eq!(encoder.params, Format::Webm);
    assert_eq!(encoder.data.len(), 2);
    assert_eq!(encoder.data[1].file, "b");
}

#[test]
fn failed_acquisition_is_reported_and_dropped() {
    let routed = Pipeline::new(Format::Webm).acquired(IllustId(5), Err(String::from("404")));
    assert!(routed.report.failure);
    assert_eq!(routed.report.text, "Error while obtaining illustration 5 ugoira frames: 404");
    assert!(routed.forward.is_none());
}

#[test]
fn encoded_animation_goes_to_the_saver_under_its_key() {
    let routed = Pipeline::new(Format::Gif).encoded(IllustId(31), Ok(vec![9, 8]));
    assert!(!routed.report.failure);
    assert_eq!(routed.report.text, "Added illustration 31 to save queue");
    let saver = routed.forward.unwrap();
    assert_eq!(saver.illust_id, IllustId(31));
    assert_eq!(saver.data, vec![9, 8]);
    assert_eq!(saver.file_name(), "31.gif");
}

#[test]
fn failed_encoding_is_reported_and_dropped() {
    let routed = Pipeline::new(Format::Gif).encoded(IllustId(31), Err(String::from("no output")));
    assert!(routed.report.failure);
    assert_eq!(routed.report.text, "Error while encoding illustration 31: no output");
    assert!(routed.forward.is_none());
}

#[test]
fn saved_animation_is_finished() {
    let routed = Pipeline::new(Format::Gif).saved(IllustId(31), Ok(()));
    assert!(!routed.report.failure);
    assert_eq!(routed.report.text, "Finished processing illustration 31");
    assert_eq!(routed.forward, Some(IllustId(31)));
}

#[test]
fn failed_save_is_reported_and_dropped() {
    let routed = Pipeline::new(Format::Gif).saved(IllustId(31), Err(String::from("disk full")));
    assert!(routed.report.failure);
    assert_eq!(routed.report.text, "Error while saving illustration 31: disk full");
    assert!(routed.forward.is_none());
}

#[test]
fn file_name_is_identifier_dot_extension() {
    assert_eq!(UgoiraSaver::new(IllustId(123), Vec::new(), Format::Gif).file_name(), "123.gif");
    assert_eq!(UgoiraSaver::new(IllustId(123), Vec::new(), Format::Webm).file_name(), "123.webm");
    assert_eq!(
        UgoiraSaver::new(IllustId(0), Vec::new(), ugoira_dl::save::WebmParams).file_name(),
        "0.webm"
    );
    assert_eq!(
        UgoiraSaver::new(IllustId(u32::MAX), Vec::new(), ugoira_dl::save::GifParams).file_name(),
        "4294967295.gif"
    );
}

#[test]
fn save_plan_keeps_the_data() {
    let plan = UgoiraSaver::new(IllustId(8), vec![1, 2, 3], Format::Gif).into();
    assert_eq!(plan.file_name, "8.gif");
    assert_eq!(plan.data, vec![1, 2, 3]);
}

#[test]
fn extensions_of_the_formats() {
    assert_eq!(ugoira_dl::save::WebmParams.get_extension(), "webm");
    assert_eq!(ugoira_dl::save::GifParams.get_extension(), "gif");
}

#[test]
fn sifting_keeps_successes_with_their_keys_in_order() {
    let results = vec![
        (IllustId(1), Ok(String::from("one"))),
        (IllustId(2), Err(String::from("two failed"))),
        (IllustId(3), Ok(String::from("three"))),
        (IllustId(4), Err(String::from("four failed"))),
    ];
    let sifted = sift(results);
    assert_eq!(
        sifted.forwarded,
        vec![(IllustId(1), String::from("one")), (IllustId(3), String::from("three"))]
    );
    assert_eq!(
        sifted.dropped,
        vec![
            (IllustId(2), String::from("two failed")),
            (IllustId(4), String::from("four failed"))
        ]
    );
}

#[test]
fn one_failure_does_not_hold_back_the_others() {
    let with_failure = vec![
        (IllustId(10), Ok(10u8)),
        (IllustId(11), Err(String::from("not found"))),
        (IllustId(12), Ok(12u8)),
    ];
    let without = vec![(IllustId(10), Ok(10u8)), (IllustId(12), Ok(12u8))];
    assert_eq!(sift(with_failure).forwarded, sift(without).forwarded);
}

#[test]
fn sifting_nothing_gives_nothing() {
    let sifted = sift(Vec::<(IllustId, Result<u8, String>)>::new());
    assert!(sifted.forwarded.is_empty());
    assert!(sifted.dropped.is_empty());
}

#[test]
fn batch_with_one_failed_acquisition_stores_the_rest_under_their_own_names() {
    let pipeline = Pipeline::new(Format::Gif);
    let acquired = vec![
        (IllustId(100), Ok(vec![frame("a", 500), frame("b", 500)])),
        (IllustId(200), Err(String::from("not found"))),
        (IllustId(300), Ok(vec![frame("a", 40)])),
    ];
    let mut names = Vec::new();
    let mut reports = Vec::new();
    for (key, outcome) in acquired.into_iter().rev() {
        let routed = pipeline.acquired(key, outcome);
        reports.push(routed.report);
        if let Some((key, encoder)) = routed.forward {
            let plan = encoder.into().unwrap();
            let mut pretended_output = plan.manifest.into_bytes();
            pretended_output.extend(key.to_string().into_bytes());
            let routed = pipeline.encoded(key, Ok(pretended_output));
            let saver = routed.forward.unwrap();
            let plan = saver.into();
            assert!(plan.data.ends_with(key.to_string().as_bytes()));
            names.push(plan.file_name);
        }
    }
    assert_eq!(names, vec!["300.gif", "100.gif"]);
    assert_eq!(reports.iter().filter(|r| r.failure).count(), 1);
}

#[test]
fn two_half_second_frames_as_gif_end_to_end() {
    let pipeline = Pipeline::new(Format::Gif);
    let routed = pipeline.discovered(Ok(IllustId(4242)));
    let (key, id) = routed.forward.unwrap();
    assert_eq!(key, id);
    let routed = pipeline.acquired(key, Ok(vec![frame("a", 500), frame("b", 500)]));
    let (key, encoder) = routed.forward.unwrap();
    let plan = encoder.into().unwrap();
    assert_eq!(
        plan.manifest,
        "ffconcat version 1.0\n\nfile a\nduration 0.500\n\nfile b\nduration 0.500\n"
    );
    let rate_at = plan.command.args.iter().position(|a| a == "-r").unwrap();
    assert_eq!(plan.command.args[rate_at + 1], "2");
    assert_eq!(plan.command.args[2], "ffconcat.txt");
    assert!(plan.command.args.contains(&String::from("gif")));
    assert_eq!(plan.command.args.last().unwrap(), "out");
    let encoded = ugoira_dl::encoder::encode_result(Ok(()), Some(vec![71, 73, 70]));
    let routed = pipeline.encoded(key, encoded.map_err(|e| format!("{:?}", e)));
    let saver = routed.forward.unwrap();
    let plan = saver.into();
    assert_eq!(plan.file_name, "4242.gif");
    assert_eq!(plan.data, vec![71, 73, 70]);
    let routed = pipeline.saved(key, Ok(()));
    assert_eq!(routed.forward, Some(IllustId(4242)));
}


#[test]
fn discovery_with_several_owners_finds_the_same_in_every_arrival_order() {
    let answers = || -> Vec<Result<Profile, Error>> {
        vec![
            Ok(Profile { illusts: vec![IllustId(3), IllustId(4)] }),
            Err(Error::NoData),
            Ok(Profile { illusts: Vec::new() }),
            Ok(Profile { illusts: vec![IllustId(5), IllustId(1)] }),
        ]
    };
    let owners = vec![ProfileId(10), ProfileId(11), ProfileId(12), ProfileId(13)];
    let orders: [[usize; 5]; 4] =
        [[0, 1, 2, 3, 4], [4, 3, 2, 1, 0], [2, 0, 4, 1, 3], [1, 4, 0, 3, 2]];
    for order in orders {
        let master = MasterIllustIdProvider::new(vec![IllustId(1), IllustId(2)], owners.clone());
        let started = master.into_stream::<Error>();
        let mut sources: Vec<Option<Vec<Result<IllustId, Error>>>> = vec![Some(started.ready)];
        for (provider, answer) in started.pending.into_iter().zip(answers()) {
            sources.push(Some(provider.into_stream(answer)));
        }
        let mut stream = Vec::new();
        for at in order {
            stream.extend(sources[at].take().unwrap());
        }
        assert_eq!(ids(&stream), vec![1, 1, 2, 3, 4, 5]);
        assert_eq!(stream.iter().filter(|item| item.is_err()).count(), 1);
        assert_eq!(stream.len(), 7);
    }
}
