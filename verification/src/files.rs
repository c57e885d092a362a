//! Encoding candidates of an item and the choice among them.

use vstd::prelude::*;
use vstd::string::StringExecFns;
use linear_map::LinearMap;

verus! {

/// An audio encoding in which the service offers a stream.
#[derive(Clone, Copy, Debug, PartialEq, Eq, Structural)]
pub enum FileFormat {
    OggVorbis96,
    OggVorbis160,
    OggVorbis320,
    Mp3_256,
    Mp3_320,
    Mp3_160,
    Mp3_96,
    Mp3_160Enc,
    Mp4_128Dual,
    Other3,
    Aac160,
    Aac320,
    Mp4_128,
    Other5,
}

impl FileFormat {
    /// The name under which the service lists the format.
    pub open spec fn label(self) -> Seq<char> {
        match self {
            FileFormat::OggVorbis96 => "OGG_VORBIS_96"@,
            FileFormat::OggVorbis160 => "OGG_VORBIS_160"@,
            FileFormat::OggVorbis320 => "OGG_VORBIS_320"@,
            FileFormat::Mp3_256 => "MP3_256"@,
            FileFormat::Mp3_320 => "MP3_320"@,
            FileFormat::Mp3_160 => "MP3_160"@,
            FileFormat::Mp3_96 => "MP3_96"@,
            FileFormat::Mp3_160Enc => "MP3_160_ENC"@,
            FileFormat::Mp4_128Dual => "MP4_128_DUAL"@,
            FileFormat::Other3 => "OTHER3"@,
            FileFormat::Aac160 => "AAC_160"@,
            FileFormat::Aac320 => "AAC_320"@,
            FileFormat::Mp4_128 => "MP4_128"@,
            FileFormat::Other5 => "OTHER5"@,
        }
    }

    /// The name under which the service lists the format.
    pub fn name(&self) -> (r: &'static str)
        ensures
            r@ == self.label(),
    {
        match self {
            FileFormat::OggVorbis96 => "OGG_VORBIS_96",
            FileFormat::OggVorbis160 => "OGG_VORBIS_160",
            FileFormat::OggVorbis320 => "OGG_VORBIS_320",
            FileFormat::Mp3_256 => "MP3_256",
            FileFormat::Mp3_320 => "MP3_320",
            FileFormat::Mp3_160 => "MP3_160",
            FileFormat::Mp3_96 => "MP3_96",
            FileFormat::Mp3_160Enc => "MP3_160_ENC",
            FileFormat::Mp4_128Dual => "MP4_128_DUAL",
            FileFormat::Other3 => "OTHER3",
            FileFormat::Aac160 => "AAC_160",
            FileFormat::Aac320 => "AAC_320",
            FileFormat::Mp4_128 => "MP4_128",
            FileFormat::Other5 => "OTHER5",
        }
    }
}

/// The reference under which the service stores one encoded stream.
#[derive(Clone, Copy, Debug, PartialEq, Eq)]
pub struct FileId(pub [u8; 20]);

/// `linear_map::LinearMap`, taken as an opaque value: what it holds is
/// known only through `candidates`.
#[verifier::external_type_specification]
#[verifier::external_body]
#[verifier::reject_recursive_types(K)]
#[verifier::reject_recursive_types(V)]
pub struct ExLinearMap<K, V>(LinearMap<K, V>);

/// The encoding candidates of one item: a stream reference per format.
pub type Files = LinearMap<FileFormat, FileId>;

/// What a candidate map holds: its formats and the reference stored for each.
pub uninterp spec fn candidates(files: LinearMap<FileFormat, FileId>) -> Map<FileFormat, FileId>;

/// `LinearMap::get`: the value stored under the key that equals the given
/// one, and `None` where the map holds no such key. Formats are compared
/// with `==`, under which a format equals itself and no other.
#[verifier::external_body]
fn lookup<'a>(files: &'a Files, format: FileFormat) -> (r: Option<&'a FileId>)
    ensures
        r is Some <==> candidates(*files).dom().contains(format),
        r is Some ==> *r->0 == candidates(*files)[format],
{
    files.get(&format)
}

/// The stream reference that the preference order picks from `m`: the
/// 320 kbps Vorbis stream, else the 160 kbps one, else the 96 kbps one.
pub open spec fn preferred(m: Map<FileFormat, FileId>) -> Option<FileId> {
    if m.dom().contains(FileFormat::OggVorbis320) {
        Some(m[FileFormat::OggVorbis320])
    } else if m.dom().contains(FileFormat::OggVorbis160) {
        Some(m[FileFormat::OggVorbis160])
    } else if m.dom().contains(FileFormat::OggVorbis96) {
        Some(m[FileFormat::OggVorbis96])
    } else {
        None
    }
}

/// Picks the best Vorbis stream among the candidates, or `None` where the
/// item offers no Vorbis stream at all.
pub fn get_usable_file_id(files: &Files) -> (r: Option<&FileId>)
    ensures
        r is Some <==> preferred(candidates(*files)) is Some,
        r is Some ==> Some(*r->0) == preferred(candidates(*files)),
{
    match lookup(files, FileFormat::OggVorbis320) {
        Some(id) => Some(id),
        None => match lookup(files, FileFormat::OggVorbis160) {
            Some(id) => Some(id),
            None => lookup(files, FileFormat::OggVorbis96),
        },
    }
}

/// The candidates of an item that offers no stream.
pub open spec fn no_candidates() -> Map<FileFormat, FileId> {
    Map::empty()
}

/// `LinearMap::new`: a map that holds nothing.
#[verifier::external_body]
fn no_files() -> (r: Files)
    ensures
        candidates(r) == no_candidates(),
{
    LinearMap::new()
}

/// `LinearMap::insert`: stores the value under the key, in place of the
/// value that the key had, if it had one. The other keys keep their values.
#[verifier::external_body]
fn put(files: &mut Files, format: FileFormat, id: FileId)
    ensures
        candidates(*final(files)) == candidates(*old(files)).insert(format, id),
{
    files.insert(format, id);
}

/// `LinearMap::keys`: each key of the map once, in an order that the map
/// does not promise.
#[verifier::external_body]
fn formats_of(files: &Files) -> (r: Vec<FileFormat>)
    ensures
        r@.no_duplicates(),
        r@.to_set() == candidates(*files).dom(),
{
    files.keys().map(|k| *k).collect()
}

/// The map that a list of candidates describes. Where a format is listed
/// more than once, the last listing counts.
pub open spec fn listed(pairs: Seq<(FileFormat, FileId)>) -> Map<FileFormat, FileId>
    decreases pairs.len(),
{
    if pairs.len() == 0 {
        Map::empty()
    } else {
        listed(pairs.drop_last()).insert(pairs.last().0, pairs.last().1)
    }
}

/// Builds the candidates of an item from a list of formats and references.
pub fn collect_files(pairs: &[(FileFormat, FileId)]) -> (r: Files)
    ensures
        candidates(r) == listed(pairs@),
{
    let mut files = no_files();
    let mut i: usize = 0;
    while i < pairs.len()
        invariant
            i <= pairs.len(),
            candidates(files) == listed(pairs@.take(i as int)),
        decreases pairs.len() - i,
    {
        assert(pairs@.take(i + 1).drop_last() == pairs@.take(i as int));
        put(&mut files, pairs[i].0, pairs[i].1);
        i += 1;
    }
    assert(pairs@.take(pairs.len() as int) == pairs@);
    files
}

/// The names of the formats, each with a space before it.
pub open spec fn listing(formats: Seq<FileFormat>) -> Seq<char>
    decreases formats.len(),
{
    if formats.len() == 0 {
        Seq::empty()
    } else {
        listing(formats.drop_last()) + " "@ + formats.last().label()
    }
}

/// The names of the formats, each with a space before it.
pub fn list_formats(formats: &[FileFormat]) -> (r: String)
    ensures
        r@ == listing(formats@),
{
    let mut out = String::new();
    let mut i: usize = 0;
    while i < formats.len()
        invariant
            i <= formats.len(),
            out@ == listing(formats@.take(i as int)),
        decreases formats.len() - i,
    {
        assert(formats@.take(i + 1).drop_last() == formats@.take(i as int));
        out.append(" ");
        out.append(formats[i].name());
        i += 1;
    }
    assert(formats@.take(formats.len() as int) == formats@);
    out
}

/// The names of the formats that an item offers, each once and with a space
/// before it, in the order in which the candidates hand them out.
pub fn describe_file_formats(files: &Files) -> (r: String)
    ensures
        exists|order: Seq<FileFormat>|
            order.no_duplicates() && order.to_set() == candidates(*files).dom() && r@ == listing(
                order,
            ),
{
    let formats = formats_of(files);
    list_formats(formats.as_slice())
}

} // verus!
