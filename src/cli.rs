//! Checks behind the command-line options: a WAV path for the server's input
//! or the client's output, and the name of an output device.

use vstd::prelude::*;

verus! {

/// The parent of a path, as `std::path::Path::parent` gives it.
pub uninterp spec fn parent_of(path: Seq<char>) -> Option<Seq<char>>;

/// The extension of a path, as `std::path::Path::extension` gives it.
pub uninterp spec fn extension_of(path: Seq<char>) -> Option<Seq<char>>;

/// Relies on `std::path::Path::parent`: the path without its last component,
/// `None` for a root or an empty path.
#[verifier::external_body]
fn path_parent(path: &str) -> (r: Option<String>)
    ensures
        match r {
            None => parent_of(path@) is None,
            Some(p) => parent_of(path@) == Some(p@),
        },
{
    match std::path::Path::new(path).parent() {
        Some(p) => Some(p.to_string_lossy().into_owned()),
        None => None,
    }
}

/// Relies on `std::path::Path::extension`: the text after the last dot of
/// the file name, if any.
#[verifier::external_body]
fn path_extension(path: &str) -> (r: Option<String>)
    ensures
        match r {
            None => extension_of(path@) is None,
            Some(e) => extension_of(path@) == Some(e@),
        },
{
    match std::path::Path::new(path).extension() {
        Some(e) => Some(e.to_string_lossy().into_owned()),
        None => None,
    }
}

/// Relies on `std::path::Path::exists`: whether something is at the path
/// now. What is on disk can change at any time.
#[verifier::external_body]
fn path_exists(path: &str) -> bool {
    std::path::Path::new(path).exists()
}

/// Relies on `std::path::Path::is_dir`: whether a directory is at the path
/// now. What is on disk can change at any time.
#[verifier::external_body]
fn path_is_dir(path: &str) -> bool {
    std::path::Path::new(path).is_dir()
}

/// A path to a WAV file: its extension is `wav`.
#[derive(Clone, Debug)]
pub struct WavFile {
    pub path: String,
}

/// `a`, then `b`, then `c`.
fn joined(a: &str, b: &str, c: &str) -> (r: String)
    ensures
        r@ == a@ + b@ + c@,
{
    let s = String::from_str(a);
    let s = s.concat(b);
    s.concat(c)
}

/// Message for a parent directory that does not exist.
pub open spec fn missing_parent_message(parent: Seq<char>) -> Seq<char> {
    "Parent directory '"@ + parent + "' does not exist"@
}

/// Message for a parent that is not a directory.
pub open spec fn parent_not_dir_message(parent: Seq<char>) -> Seq<char> {
    "Parent '"@ + parent + "' is not a directory"@
}

/// Message for a path without the `wav` extension.
pub open spec fn not_wav_message(path: Seq<char>) -> Seq<char> {
    "File '"@ + path + "' does not have a .wav extension. Only wav files are supported."@
}

/// Message for a file that does not exist.
pub open spec fn missing_file_message(path: Seq<char>) -> Seq<char> {
    "File '"@ + path + "' does not exist"@
}

/// The four messages are told apart by their first letter or their length.
proof fn lemma_messages_differ(path: Seq<char>, parent: Seq<char>)
    ensures
        not_wav_message(path) != missing_file_message(path),
        missing_parent_message(parent) != not_wav_message(path),
        parent_not_dir_message(parent) != not_wav_message(path),
        missing_parent_message(parent) != missing_file_message(path),
        parent_not_dir_message(parent) != missing_file_message(path),
{
    reveal_strlit("Parent directory '");
    reveal_strlit("Parent '");
    reveal_strlit("File '");
    reveal_strlit("' does not exist");
    reveal_strlit("' does not have a .wav extension. Only wav files are supported.");
    assert(missing_parent_message(parent)[0] == 'P');
    assert(parent_not_dir_message(parent)[0] == 'P');
    assert(not_wav_message(path)[0] == 'F');
    assert(missing_file_message(path)[0] == 'F');
    assert(not_wav_message(path).len() != missing_file_message(path).len());
}

/// Whether `m` is one of the messages for a bad parent of `path`.
pub open spec fn parent_message(path: Seq<char>, m: Seq<char>) -> bool {
    parent_of(path) matches Some(p) && (m == missing_parent_message(p) || m
        == parent_not_dir_message(p))
}

/// Whether a parent needs checking on disk: it is there and not empty.
pub open spec fn parent_to_check(path: Seq<char>) -> bool {
    parent_of(path) matches Some(p) && p.len() > 0
}

/// The verdict on a path's parent directory, given what the disk says of it.
pub fn parent_verdict(parent: &str, exists: bool, is_dir: bool) -> (r: Result<(), String>)
    ensures
        !exists ==> (r matches Err(m) && m@ == missing_parent_message(parent@)),
        exists && !is_dir ==> (r matches Err(m) && m@ == parent_not_dir_message(parent@)),
        exists && is_dir ==> r is Ok,
{
    if !exists {
        Err(joined("Parent directory '", parent, "' does not exist"))
    } else if !is_dir {
        Err(joined("Parent '", parent, "' is not a directory"))
    } else {
        Ok(())
    }
}

/// The verdict on a path's name, given its extension: a `WavFile` when the
/// extension is exactly `wav`.
pub fn name_verdict(path: &str, extension: &Option<String>) -> (r: Result<WavFile, String>)
    ensures
        (extension matches Some(e) && e@ == "wav"@) ==> (r matches Ok(w) && w.path@ == path@),
        match extension {
            Some(e) => e@ != "wav"@,
            None => true,
        } ==> (r matches Err(m) && m@ == not_wav_message(path@)),
{
    let wav = String::from_str("wav");
    let is_wav = match extension {
        Some(e) => *e == wav,
        None => false,
    };
    if is_wav {
        Ok(WavFile { path: String::from_str(path) })
    } else {
        Err(joined("File '", path, "' does not have a .wav extension. Only wav files are supported."))
    }
}

/// The verdict on a WAV path, given the outcome of its parent check and its
/// extension: a parent error comes first, then the name is judged.
pub fn wav_file_verdict(
    path: &str,
    parent_check: Result<(), String>,
    extension: &Option<String>,
) -> (r: Result<WavFile, String>)
    ensures
        parent_check matches Err(m) ==> r == Err::<WavFile, String>(m),
        parent_check is Ok && (extension matches Some(e) && e@ == "wav"@) ==> (r matches Ok(w)
            && w.path@ == path@),
        parent_check is Ok && !(extension matches Some(e) && e@ == "wav"@) ==> (r matches Err(m)
            && m@ == not_wav_message(path@)),
{
    match parent_check {
        Err(m) => Err(m),
        Ok(()) => name_verdict(path, extension),
    }
}

impl WavFile {
    /// Checks that `s` names a WAV file whose directory exists: when the path
    /// has a non-empty parent, that parent must exist and be a directory; the
    /// extension must be `wav`.
    pub fn from_str(s: &str) -> (r: Result<WavFile, String>)
        ensures
            r matches Ok(w) ==> w.path@ == s@ && extension_of(s@) == Some("wav"@),
            !parent_to_check(s@) ==> (r is Ok <==> extension_of(s@) == Some("wav"@)),
            !parent_to_check(s@) && extension_of(s@) != Some("wav"@) ==> (r matches Err(m)
                && m@ == not_wav_message(s@)),
            r matches Err(m) ==> parent_message(s@, m@) || m@ == not_wav_message(s@),
            (r matches Err(m) && m@ == not_wav_message(s@)) ==> extension_of(s@) != Some("wav"@),
            extension_of(s@) == Some("wav"@) ==> (r matches Err(m) ==> parent_message(s@, m@)),
    {
        proof {
            if parent_of(s@) is Some {
                lemma_messages_differ(s@, parent_of(s@)->Some_0);
            }
        }
        let parent_check = match path_parent(s) {
            Some(p) => {
                if p.as_str().unicode_len() > 0 {
                    let exists = path_exists(p.as_str());
                    let is_dir = if exists {
                        path_is_dir(p.as_str())
                    } else {
                        false
                    };
                    parent_verdict(p.as_str(), exists, is_dir)
                } else {
                    Ok(())
                }
            },
            None => Ok(()),
        };
        let extension = path_extension(s);
        proof {
            if extension_of(s@) == Some("wav"@) {
                assert(extension matches Some(e) && e@ == "wav"@);
            }
        }
        wav_file_verdict(s, parent_check, &extension)
    }
}

/// Checks that `s` names an existing WAV file, with the checks of
/// `WavFile::from_str` and then that the file exists.
pub fn parse_existing_wav(s: &str) -> (r: Result<WavFile, String>)
    ensures
        r matches Ok(w) ==> w.path@ == s@ && extension_of(s@) == Some("wav"@),
        !parent_to_check(s@) && extension_of(s@) != Some("wav"@) ==> (r matches Err(m) && m@
            == not_wav_message(s@)),
        r matches Err(m) ==> parent_message(s@, m@) || m@ == not_wav_message(s@) || m@
            == missing_file_message(s@),
        (r matches Err(m) && m@ == not_wav_message(s@)) ==> extension_of(s@) != Some("wav"@),
        (r matches Err(m) && m@ == missing_file_message(s@)) ==> extension_of(s@) == Some("wav"@),
        extension_of(s@) == Some("wav"@) ==> (r matches Err(m) ==> parent_message(s@, m@) || m@
            == missing_file_message(s@)),
{
    proof {
        lemma_messages_differ(s@, Seq::empty());
        if parent_of(s@) is Some {
            lemma_messages_differ(s@, parent_of(s@)->Some_0);
        }
    }
    let wav = WavFile::from_str(s)?;
    existing_verdict(wav, path_exists(s))
}

/// The verdict on a checked WAV path, given whether the file exists.
pub fn existing_verdict(wav: WavFile, exists: bool) -> (r: Result<WavFile, String>)
    ensures
        exists ==> (r matches Ok(w) && w.path@ == wav.path@),
        !exists ==> (r matches Err(m) && m@ == missing_file_message(wav.path@)),
{
    if exists {
        Ok(wav)
    } else {
        Err(joined("File '", wav.path.as_str(), "' does not exist"))
    }
}

/// Options of the server program.
#[derive(Clone, Debug)]
pub struct ServerCli {
    /// Port to listen on.
    pub port: u16,
    /// Audio WAV file to play.
    pub wav: WavFile,
}

/// Subcommands of the client program.
#[derive(Clone, Copy, Debug, PartialEq, Eq, Structural)]
pub enum ClientCliSubCommand {
    ListAvailableSpeakers,
}

/// The name of an output device that the host offers.
#[derive(Clone, Debug)]
pub struct SpeakerDevice {
    pub name: String,
}

/// Message for a device name that the host does not offer.
pub open spec fn unknown_device_message(name: Seq<char>) -> Seq<char> {
    "Speaker device '"@ + name
        + "' not found.\n Use the list-available-speakers command to see available devices."@
}

impl SpeakerDevice {
    /// Accepts `name` when it is one of the names in `available`.
    pub fn from_name(name: &str, available: &Vec<String>) -> (r: Result<SpeakerDevice, String>)
        ensures
            r is Ok <==> exists|i: int| 0 <= i < available@.len() && (#[trigger] available@[i])@ == name@,
            r matches Ok(d) ==> d.name@ == name@,
            r matches Err(m) ==> m@ == unknown_device_message(name@),
    {
        let wanted = String::from_str(name);
        let mut i: usize = 0;
        while i < available.len()
            invariant
                i <= available@.len(),
                wanted@ == name@,
                forall|j: int| 0 <= j < i ==> (#[trigger] available@[j])@ != name@,
            decreases available@.len() - i,
        {
            if available[i] == wanted {
                return Ok(SpeakerDevice { name: wanted });
            }
            i += 1;
        }
        Err(
            joined(
                "Speaker device '",
                name,
                "' not found.\n Use the list-available-speakers command to see available devices.",
            ),
        )
    }
}

} // verus!
