use linear_map::LinearMap;
use oggify::files::{get_usable_file_id, FileFormat, FileId, Files};

fn id(n: u8) -> FileId {
    FileId([n; 20])
}

#[test]
fn prefers_320_over_96() {
    let mut files: Files = LinearMap::new();
    files.insert(FileFormat::OggVorbis96, id(1));
    files.insert(FileFormat::OggVorbis320, id(3));
    assert_eq!(get_usable_file_id(&files), Some(&id(3)));
}

#[test]
fn falls_back_to_96() {
    let mut files: Files = LinearMap::new();
    files.insert(FileFormat::OggVorbis96, id(1));
    assert_eq!(get_usable_file_id(&files), Some(&id(1)));
}

#[test]
fn empty_candidates_have_no_usable_encoding() {
    let files: Files = LinearMap::new();
    assert_eq!(get_usable_file_id(&files), None);
}

#[test]
fn prefers_160_over_96_and_mp3() {
    let files = oggify::files::collect_files(&[
        (FileFormat::Mp3_320, id(9)),
        (FileFormat::OggVorbis96, id(1)),
        (FileFormat::OggVorbis160, id(2)),
    ]);
    assert_eq!(get_usable_file_id(&files), Some(&id(2)));
}

#[test]
fn other_formats_alone_are_not_usable() {
    let files = oggify::files::collect_files(&[(FileFormat::Mp3_320, id(9)), (FileFormat::Aac320, id(8))]);
    assert_eq!(get_usable_file_id(&files), None);
}

#[test]
fn later_listing_of_a_format_counts() {
    let files = oggify::files::collect_files(&[(FileFormat::OggVorbis320, id(1)), (FileFormat::OggVorbis320, id(2))]);
    assert_eq!(files.len(), 1);
    assert_eq!(get_usable_file_id(&files), Some(&id(2)));
}

#[test]
fn formats_are_listed_by_name() {
    assert_eq!(
        oggify::files::list_formats(&[FileFormat::OggVorbis320, FileFormat::Mp3_160Enc, FileFormat::Other5]),
        " OGG_VORBIS_320 MP3_160_ENC OTHER5"
    );
    assert_eq!(oggify::files::list_formats(&[]), "");
}

#[test]
fn formats_of_candidates_are_described() {
    let files = oggify::files::collect_files(&[
        (FileFormat::OggVorbis96, id(1)),
        (FileFormat::Mp3_256, id(2)),
        (FileFormat::OggVorbis96, id(3)),
    ]);
    let line = oggify::files::describe_file_formats(&files);
    let mut names: Vec<&str> = line.split(' ').collect();
    names.sort();
    assert_eq!(names, vec!["", "MP3_256", "OGG_VORBIS_96"]);
    assert_eq!(oggify::files::describe_file_formats(&LinearMap::new()), "");
}

#[test]
fn format_names_are_those_of_the_service() {
    let all = [
        (FileFormat::OggVorbis96, "OGG_VORBIS_96"),
        (FileFormat::OggVorbis160, "OGG_VORBIS_160"),
        (FileFormat::OggVorbis320, "OGG_VORBIS_320"),
        (FileFormat::Mp3_256, "MP3_256"),
        (FileFormat::Mp3_320, "MP3_320"),
        (FileFormat::Mp3_160, "MP3_160"),
        (FileFormat::Mp3_96, "MP3_96"),
        (FileFormat::Mp3_160Enc, "MP3_160_ENC"),
        (FileFormat::Mp4_128Dual, "MP4_128_DUAL"),
        (FileFormat::Other3, "OTHER3"),
        (FileFormat::Aac160, "AAC_160"),
        (FileFormat::Aac320, "AAC_320"),
        (FileFormat::Mp4_128, "MP4_128"),
        (FileFormat::Other5, "OTHER5"),
    ];
    for (format, name) in all {
        assert_eq!(format.name(), name);
    }
}
