use helptags::tag_search::Tag;

#[test]
fn test_tag_from_str() {
    let tag = Tag::from_str("!\tchange.txt\t/*!*");
    assert_eq!(
        tag,
        Tag {
            name: "!",
            file: "change.txt",
        }
    );
}

#[test]
fn test_tag_ord() {
    let tag = Tag::from_str("!\tchange.txt\t/*!*");
    let tag2 = Tag::from_str("$NVIM_LISTEN_ADDRESS\tdeprecated.txt\t/*$NVIM_LISTEN_ADDRESS*");

    assert_eq!(tag.cmp(&tag2), std::cmp::Ordering::Less);
}

#[test]
fn tag_from_name_has_empty_file() {
    let tag = Tag::from_name("CTRL-N");
    assert_eq!(tag.name, "CTRL-N");
    assert_eq!(tag.file, "");
}

#[test]
fn tag_search_to_url() {
    let tag = Tag::from_str("CTRL-N\tmotion.txt\t/*CTRL-N*");
    assert_eq!(tag.to_url(), "https://neovim.io/doc/user/motion.html#CTRL-N");
}

#[test]
fn tag_search_to_url_maps_index_to_vimindex() {
    let tag = Tag::from_str("Q_ur\tindex\t/*Q_ur*");
    assert_eq!(tag.to_url(), "https://neovim.io/doc/user/vimindex.html#Q_ur");
}

#[test]
fn tag_two_fields_only() {
    let tag = Tag::from_str("w\twindows.txt");
    assert_eq!(tag.name, "w");
    assert_eq!(tag.file, "windows.txt");
}
