use tictactoe::models::game::GameStatus as StoredGameStatus;
use tictactoe::models::room::{
    code_from_indices, generate_code, CreateRoomRequest, GetRoomsRequest, RoomRole, RoomStatus,
    CODE_CHARSET, CODE_LEN,
};
use tictactoe::models::user::{user_id_key, CreateUserRequest, User};

#[test]
fn generated_code_has_five_charset_chars() {
    for _ in 0..50 {
        let code = generate_code();
        assert_eq!(code.chars().count(), CODE_LEN);
        assert!(code.chars().all(|c| CODE_CHARSET.contains(c)));
    }
}

#[test]
fn code_from_indices_spells_the_charset() {
    assert_eq!(code_from_indices(&vec![0, 25, 26, 35, 1]), "AZ09B");
    assert_eq!(code_from_indices(&vec![]), "");
}

#[test]
fn user_id_key_reads_uuids() {
    assert_eq!(
        user_id_key("550e8400-e29b-41d4-a716-446655440000").unwrap(),
        0x550e8400_e29b_41d4_a716_446655440000u128
    );
    assert_eq!(user_id_key("00000000000000000000000000000001").unwrap(), 1u128);
    let err = user_id_key("not-a-uuid").unwrap_err();
    assert_eq!(err.message, uuid::Uuid::parse_str("not-a-uuid").unwrap_err().to_string());
    assert!(!err.message.is_empty());
}

#[test]
fn records_hold_their_fields() {
    let r = CreateRoomRequest { room_name: "n".to_string(), is_private: true, max_spectators: 3 };
    assert_eq!(r.max_spectators, 3);
    let g = GetRoomsRequest { status: Some(RoomStatus::Waiting) };
    assert_eq!(g.status, Some(RoomStatus::Waiting));
    assert_ne!(RoomRole::Player, RoomRole::Spectator);
    assert_ne!(StoredGameStatus::InProgress, StoredGameStatus::Completed);
    let u = User { id: "i".to_string(), username: "u".to_string(), password: "p".to_string(), email: "e".to_string() };
    assert_eq!(u.email, "e");
    let c = CreateUserRequest { email: "e".to_string(), username: "u".to_string(), password: "p".to_string() };
    assert_eq!(c.username, "u");
}
