use storyestimate::dal::codec::{
    decode_participant, decode_session, decode_user, encode_participant, encode_session,
    encode_user, participant_codec_round_trip, session_codec_round_trip, user_codec_round_trip,
};
use storyestimate::dal::remote::{
    participant_key, redis_set_key, redis_table_key, remote_add_participant_plan,
    remote_del_participant_plan, remote_get_session, remote_get_user, remote_load_participants,
    remote_session_round_trip, remote_update_participant_plan, remote_update_session_plan, strict,
    RedisSet, RedisTable,
};
use storyestimate::dal::{ParticipantChange, SessionAction};
use storyestimate::errors::Error;
use storyestimate::estimates::participant::Participant;
use storyestimate::estimates::session::{Average, Session, SessionID};
use storyestimate::estimates::vote::VoteState;
use storyestimate::user::{BasicUser, Nickname, UserID, UserToken};

#[test]
fn session_round_trips_through_the_codec() {
    let s = Session {
        session_id: SessionID("abcde".to_string()),
        average: Some(Average { total: 10, count: 2 }),
    };
    let back = session_codec_round_trip(&s);
    assert_eq!(back, s);
    let t = Session { session_id: SessionID("snake oil".to_string()), average: None };
    assert_eq!(session_codec_round_trip(&t), t);
}

#[test]
fn user_round_trips_through_the_codec() {
    let u = BasicUser::new();
    let back = user_codec_round_trip(&u);
    assert!(back == u);
}

#[test]
fn participant_round_trips_through_the_codec() {
    let user = BasicUser::new();
    let mut p = Participant::new(&user, SessionID("abcde".to_string()), Nickname::new("bob"));
    p.vote(13);
    let back = participant_codec_round_trip(&p);
    assert_eq!(back, p);
    let encoded = encode_participant(&p);
    assert_eq!(decode_participant(&encoded), Some(p));
}

#[test]
fn codec_survives_unusual_nicknames() {
    let user = BasicUser::new();
    let p = Participant::new(
        &user,
        SessionID("abcde".to_string()),
        Nickname::new("b\u{f6}b \u{1F980} _ with spaces"),
    );
    let encoded = encode_participant(&p);
    assert_eq!(decode_participant(&encoded), Some(p));
}

#[test]
fn decoding_garbage_is_refused() {
    assert_eq!(decode_session(&vec![]), None);
    assert!(decode_user(&vec![1, 2, 3]).is_none());
    let s = Session { session_id: SessionID("abcde".to_string()), average: None };
    let mut encoded = encode_session(&s);
    encoded.push(0);
    assert_eq!(decode_session(&encoded), None);
}

#[test]
fn encoding_differs_from_its_input() {
    let u = BasicUser {
        user_id: UserID("aaaaa".to_string()),
        user_token: UserToken("bbbbb".to_string()),
    };
    let encoded = encode_user(&u);
    assert_ne!(encoded, "aaaaabbbbb".as_bytes().to_vec());
    assert!(decode_user(&encoded).unwrap() == u);
}

#[test]
fn table_and_set_keys_carry_the_namespace() {
    assert_eq!(redis_table_key("abc", RedisTable::User), "STORYESTIMATES_USER_abc");
    assert_eq!(redis_table_key("abc", RedisTable::Session), "STORYESTIMATES_SESSION_abc");
    assert_eq!(
        redis_table_key("abc", RedisTable::Participant),
        "STORYESTIMATES_PARTICIPANT_abc"
    );
    assert_eq!(
        redis_set_key("abc", RedisSet::ParticipantUID),
        "STORYESTIMATES_set_PARTICIPANTUID_abc"
    );
    assert_eq!(
        redis_set_key("abc", RedisSet::ParticipantName),
        "STORYESTIMATES_set_PARTICIPANTNAME_abc"
    );
    assert_eq!(redis_set_key("abc", RedisSet::Admin), "STORYESTIMATES_set_ADMIN_abc");
    assert_eq!(
        participant_key(&SessionID("sss".to_string()), &UserID("uuu".to_string())),
        "sss_uuu"
    );
}

#[test]
fn strict_demands_a_value() {
    assert_eq!(strict(Ok(Some(7u32))).unwrap(), 7);
    assert!(matches!(strict::<u32>(Ok(None)).unwrap_err(), Error::ObjectNotFound(_)));
    assert!(matches!(
        strict::<u32>(Err(Error::BackendError("x".to_string()))).unwrap_err(),
        Error::BackendError(_)
    ));
}

#[test]
fn remote_reads_decode_fetched_rows() {
    assert!(remote_get_user(None).unwrap().is_none());
    let u = BasicUser::new();
    let row = encode_user(&u);
    assert!(remote_get_user(Some(row)).unwrap().unwrap() == u);
    assert!(remote_get_user(Some(vec![9, 9])).is_err());

    assert!(remote_get_session(None).unwrap().is_none());
    let s = Session { session_id: SessionID("abcde".to_string()), average: None };
    assert_eq!(remote_get_session(Some(encode_session(&s))).unwrap().unwrap(), s);
}

#[test]
fn remote_member_join_detects_missing_rows() {
    let user = BasicUser::new();
    let p = Participant::new(&user, SessionID("abcde".to_string()), Nickname::new("bob"));
    let rows = vec![Some(encode_participant(&p)), None];
    assert!(matches!(
        remote_load_participants(rows).unwrap_err(),
        Error::DataIntegrityError(_)
    ));
    let rows2 = vec![Some(encode_participant(&p))];
    let loaded = remote_load_participants(rows2).unwrap();
    assert_eq!(loaded, vec![p]);
}

#[test]
fn remote_add_participant_plan_guards_duplicates() {
    let user = BasicUser::new();
    let p = Participant::new(&user, SessionID("abcde".to_string()), Nickname::new("bob"));
    assert!(matches!(
        remote_add_participant_plan(true, p.clone()).unwrap_err(),
        Error::UserError(_)
    ));
    let (key, row) = remote_add_participant_plan(false, p.clone()).unwrap();
    assert_eq!(key, format!("STORYESTIMATES_PARTICIPANT_abcde_{}", user.user_id.0));
    assert_eq!(decode_participant(&row).unwrap(), p);
}

#[test]
fn remote_del_participant_plan_reports_non_members() {
    let sid = SessionID("abcde".to_string());
    let uid = UserID("uuu".to_string());
    assert!(matches!(
        remote_del_participant_plan(false, &sid, &uid).unwrap_err(),
        Error::ObjectNotFound(_)
    ));
    assert_eq!(
        remote_del_participant_plan(true, &sid, &uid).unwrap(),
        "STORYESTIMATES_PARTICIPANT_abcde_uuu"
    );
}

#[test]
fn remote_update_participant_plan_renames() {
    let user = BasicUser::new();
    let p = Participant::new(&user, SessionID("abcde".to_string()), Nickname::new("bob"));
    let row = encode_participant(&p);
    let (key, new_row) =
        remote_update_participant_plan(Some(row), ParticipantChange::Rename(Nickname::new("bill")))
            .unwrap();
    assert_eq!(key, format!("STORYESTIMATES_PARTICIPANT_abcde_{}", user.user_id.0));
    let renamed = decode_participant(&new_row).unwrap();
    assert_eq!(renamed.nickname, Nickname::new("bill"));
    assert_eq!(renamed.user_id, p.user_id);
    assert!(matches!(
        remote_update_participant_plan(None, ParticipantChange::CastVote(1)).unwrap_err(),
        Error::ObjectNotFound(_)
    ));
}

#[test]
fn remote_update_session_plan_takes_votes() {
    let s = Session { session_id: SessionID("abcde".to_string()), average: None };
    let user1 = BasicUser::new();
    let user2 = BasicUser::new();
    let mut p1 = Participant::new(&user1, s.session_id.clone(), Nickname::new("bob"));
    let mut p2 = Participant::new(&user2, s.session_id.clone(), Nickname::new("bill"));
    p1.vote(4);
    p2.vote(6);
    let (skey, srow, writes) = remote_update_session_plan(
        Some(encode_session(&s)),
        vec![p1, p2],
        SessionAction::TakeVotes,
    )
    .unwrap();
    assert_eq!(skey, "STORYESTIMATES_SESSION_abcde");
    let new_session = decode_session(&srow).unwrap();
    let avg = new_session.average.unwrap();
    assert_eq!(avg.total as f32 / avg.count as f32, 5f32);
    assert_eq!(writes.len(), 2);
    for (_, row) in &writes {
        let p = decode_participant(row).unwrap();
        assert!(matches!(p.vote, VoteState::Visible(_)));
    }
    assert!(matches!(
        remote_update_session_plan(None, vec![], SessionAction::Reset).unwrap_err(),
        Error::ObjectNotFound(_)
    ));
}

#[test]
fn session_round_trips_through_the_remote_read_path() {
    let s = Session {
        session_id: SessionID("abcde".to_string()),
        average: Some(Average { total: 7, count: 3 }),
    };
    assert_eq!(remote_session_round_trip(&s), s);
}

#[test]
fn missing_participant_row_is_a_data_integrity_fault_even_alone() {
    let rows: Vec<Option<Vec<u8>>> = vec![None];
    assert!(matches!(
        remote_load_participants(rows).unwrap_err(),
        Error::DataIntegrityError(_)
    ));
}
