use librespot_core::spotify_id::{SpotifyAudioType, SpotifyId};
use oggify::ids::{ItemId, ID_TEXT_LEN};
use oggify::kinds::{IndexedTy, LinkKind};

fn chars(s: &str) -> Vec<char> {
    s.chars().collect()
}

#[test]
fn base62_digits_are_valued_in_order() {
    assert_eq!(ItemId::from_base62(&chars("0")), Some(ItemId(0)));
    assert_eq!(ItemId::from_base62(&chars("9")), Some(ItemId(9)));
    assert_eq!(ItemId::from_base62(&chars("a")), Some(ItemId(10)));
    assert_eq!(ItemId::from_base62(&chars("z")), Some(ItemId(35)));
    assert_eq!(ItemId::from_base62(&chars("A")), Some(ItemId(36)));
    assert_eq!(ItemId::from_base62(&chars("Z")), Some(ItemId(61)));
    assert_eq!(ItemId::from_base62(&chars("10")), Some(ItemId(62)));
    assert_eq!(ItemId::from_base62(&chars("")), Some(ItemId(0)));
}

#[test]
fn known_identifier_reads_and_writes() {
    let text = "5sWHDYs0csV6RS48xBl0tH";
    let id = ItemId(0xb39fe8081e1f4c54be38e8d6f9f12bb9);
    assert_eq!(ItemId::from_base62(&chars(text)), Some(id));
    assert_eq!(id.to_base62(), text);
}

#[test]
fn canonical_text_is_padded_to_22_digits() {
    assert_eq!(ItemId(0).to_base62(), "0".repeat(ID_TEXT_LEN));
    assert_eq!(ItemId(61).to_base62(), format!("{}Z", "0".repeat(21)));
    assert_eq!(ItemId(u128::MAX).to_base62().len(), ID_TEXT_LEN);
}

#[test]
fn canonical_text_round_trips() {
    for n in [0u128, 1, 61, 62, 3843, u64::MAX as u128, u128::MAX - 1, u128::MAX] {
        let text = ItemId(n).to_base62();
        assert_eq!(ItemId::from_base62(&chars(&text)), Some(ItemId(n)));
    }
}

#[test]
fn text_that_is_no_base62_is_refused() {
    assert_eq!(ItemId::from_base62(&chars("abc-def")), None);
    assert_eq!(ItemId::from_base62(&chars("abc def")), None);
    assert_eq!(ItemId::from_base62(&chars("é")), None);
}

#[test]
fn number_beyond_128_bits_is_refused() {
    assert_eq!(ItemId::from_base62(&chars("7N42dgm5tFLK9N8MT7fHC7")), Some(ItemId(u128::MAX)));
    assert_eq!(ItemId::from_base62(&chars("7N42dgm5tFLK9N8MT7fHC8")), None);
    assert_eq!(ItemId::from_base62(&chars("ZZZZZZZZZZZZZZZZZZZZZZ")), None);
    assert_eq!(ItemId::from_base62(&chars("ZZZZZZZZZZZZZZZZZZZZZZZZZZZZZZ")), None);
}

#[test]
fn kinds_have_their_words() {
    assert_eq!(IndexedTy::Track.to_string(), "track");
    assert_eq!(IndexedTy::Episode.to_string(), "episode");
    assert_eq!(IndexedTy::Track.as_str(), "track");
    assert_eq!(IndexedTy::Episode.as_str(), "episode");
}

#[test]
fn link_kinds_know_what_they_contribute() {
    assert_eq!(LinkKind::Track.as_leaf(), Some(IndexedTy::Track));
    assert_eq!(LinkKind::Episode.as_leaf(), Some(IndexedTy::Episode));
    assert_eq!(LinkKind::Album.as_leaf(), None);
    assert_eq!(LinkKind::Playlist.as_leaf(), None);
    assert_eq!(LinkKind::Show.as_leaf(), None);
    assert_eq!(LinkKind::Album.contributes(), IndexedTy::Track);
    assert_eq!(LinkKind::Playlist.contributes(), IndexedTy::Track);
    assert_eq!(LinkKind::Show.contributes(), IndexedTy::Episode);
    assert!(LinkKind::Show.is_container());
    assert!(!LinkKind::Track.is_container());
}

#[test]
fn base62_agrees_with_the_service_library() {
    for text in ["5sWHDYs0csV6RS48xBl0tH", "4GNcXTGWmnZ3ySrqvol3o4", "0000000000000000000000", "7N42dgm5tFLK9N8MT7fHC7", "abc", "Zz09"] {
        let ours = ItemId::from_base62(&chars(text)).unwrap();
        let theirs = SpotifyId::from_base62(text).unwrap();
        assert_eq!(ours.0, theirs.id);
    }
    for n in [0u128, 1, 61, 62, 1 << 64, u128::MAX] {
        let theirs = SpotifyId { id: n, audio_type: SpotifyAudioType::Track }.to_base62().unwrap();
        assert_eq!(ItemId(n).to_base62(), theirs);
    }
}
