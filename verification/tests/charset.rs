use saiko_ui::charset::SaikoCharacterSet;
use saiko_ui::charset::SaikoSdfFontSettings;

#[test]
fn ascii_holds_the_first_128_characters() {
    let set = SaikoCharacterSet::ascii();
    assert_eq!(set.len(), 128);
    let expected: Vec<char> = (0u8..128).map(|code| code as char).collect();
    assert_eq!(set.characters(), expected.as_slice());
    assert_eq!(set.characters()[0x41], 'A');
    assert_eq!(set.characters()[0x7F], '\u{7F}');
}

#[test]
fn default_set_is_ascii() {
    assert_eq!(SaikoCharacterSet::default().into_vec(), SaikoCharacterSet::ascii().into_vec());
    assert_eq!(
        SaikoSdfFontSettings::default().character_set.into_vec(),
        SaikoCharacterSet::ascii().into_vec()
    );
}

#[test]
fn hiragana_stops_before_the_last_code_point() {
    let set = SaikoCharacterSet::japanese_hiragana();
    let expected: Vec<char> = ('\u{3040}'..'\u{309f}').collect();
    assert_eq!(set.len(), 95);
    assert_eq!(set.into_vec(), expected);
}

#[test]
fn sets_are_made_from_vectors_slices_and_text() {
    assert_eq!(SaikoCharacterSet::from_vec(vec!['b', 'a', 'b']).into_vec(), vec!['b', 'a', 'b']);
    assert_eq!(SaikoCharacterSet::from_slice(&['x', 'y']).into_vec(), vec!['x', 'y']);
    assert_eq!(SaikoCharacterSet::from_text("a\u{3042}z").into_vec(), vec!['a', '\u{3042}', 'z']);
    assert_eq!(SaikoCharacterSet::from_text("").len(), 0);
    assert_eq!(SaikoCharacterSet::from(vec!['q', 'r']).into_vec(), vec!['q', 'r']);
    let set: SaikoCharacterSet = vec!['s'].into();
    assert_eq!(set.characters(), &['s']);
}

#[test]
fn extend_appends_in_order() {
    let mut set = SaikoCharacterSet::from_text("ab");
    set.extend(SaikoCharacterSet::from_text("ca"));
    assert_eq!(set.characters(), &['a', 'b', 'c', 'a']);
    set.extend(SaikoCharacterSet::from_vec(Vec::new()));
    assert_eq!(set.len(), 4);
    let copy = set.clone();
    assert_eq!(copy.into_vec(), set.into_vec());
}
