//! Capturing clipboard content: which command reads the clipboard on each
//! display server, how content is hashed, and when a read is a new copy
//! worth storing.

use vstd::prelude::*;
use vstd::string::StrSliceExecFns;
use vstd::string::StringExecFns;
use vstd::utf8::{decode_utf8, encode_utf8, valid_utf8};
use sha2::{Digest, Sha256};
use crate::item::{ContentType, NewClipboardItem};
use crate::text::{byte_prefix, byte_prefix_of, cuts_on_char_boundary, cuts_on_char_boundary_exec};

verus! {

/// The SHA-256 digest of `data`.
pub uninterp spec fn sha256(data: Seq<u8>) -> Seq<u8>;

/// Calls `sha2::Sha256::digest`. Trusted: the result is the SHA-256 digest of
/// `data` (named `sha256`), which is 32 bytes long.
#[verifier::external_body]
fn sha256_digest(data: &[u8]) -> (r: Vec<u8>)
    ensures
        r@ == sha256(data@),
        r@.len() == 32,
{
    Sha256::digest(data).to_vec()
}

pub open spec fn hex_alphabet() -> Seq<char> {
    seq!['0', '1', '2', '3', '4', '5', '6', '7', '8', '9', 'a', 'b', 'c', 'd', 'e', 'f']
}

/// `bytes` written as lowercase hex, two digits per byte, high nibble first.
pub open spec fn hex_lower(bytes: Seq<u8>) -> Seq<char> {
    Seq::new(
        (2 * bytes.len()) as nat,
        |i: int|
            if i % 2 == 0 {
                hex_alphabet()[(bytes[i / 2] / 16) as int]
            } else {
                hex_alphabet()[(bytes[i / 2] % 16) as int]
            },
    )
}

/// `bytes` in lowercase hex.
pub fn to_hex_lower(bytes: &[u8]) -> (r: String)
    ensures
        r@ == hex_lower(bytes@),
{
    let digits = "0123456789abcdef";
    proof {
        reveal_strlit("0123456789abcdef");
        assert(digits@ =~= hex_alphabet());
    }
    let mut r = String::new();
    let n = bytes.len();
    for i in 0..n
        invariant
            n == bytes@.len(),
            digits@ == hex_alphabet(),
            r@ =~= hex_lower(bytes@.subrange(0, i as int)),
    {
        let b = bytes[i];
        let hi = (b / 16) as usize;
        let lo = (b % 16) as usize;
        r.append(digits.substring_char(hi, hi + 1));
        r.append(digits.substring_char(lo, lo + 1));
        proof {
            let prev = bytes@.subrange(0, i as int);
            let next = bytes@.subrange(0, i + 1);
            assert forall|k: int| 0 <= k < 2 * next.len() implies #[trigger] hex_lower(next)[k] == r@[k] by {
                if k < 2 * prev.len() {
                    assert(next[k / 2] == prev[k / 2]);
                }
            }
        }
    }
    proof {
        assert(bytes@.subrange(0, n as int) =~= bytes@);
    }
    r
}

/// The lowercase hex SHA-256 digest of `data`, 64 digits long: how the
/// history tells copies apart.
pub fn compute_hash(data: &[u8]) -> (r: String)
    ensures
        r@ == hex_lower(sha256(data@)),
        r@.len() == 64,
{
    let digest = sha256_digest(data);
    to_hex_lower(digest.as_slice())
}

/// Which clipboard protocol the desktop speaks.
#[derive(Clone, Copy, Debug, PartialEq, Eq, Structural)]
pub enum DisplayServer {
    X11,
    Wayland,
}

/// Wayland when `WAYLAND_DISPLAY` is set, X11 otherwise.
pub fn detect_display_server(wayland_display_set: bool) -> (r: DisplayServer)
    ensures
        r == (if wayland_display_set {
            DisplayServer::Wayland
        } else {
            DisplayServer::X11
        }),
{
    if wayland_display_set {
        DisplayServer::Wayland
    } else {
        DisplayServer::X11
    }
}

/// A program and its arguments.
#[derive(Debug)]
pub struct ClipboardCommand {
    pub program: String,
    pub args: Vec<String>,
}

pub open spec fn command_view(c: ClipboardCommand) -> (Seq<char>, Seq<Seq<char>>) {
    (c.program@, c.args@.map_values(|a: String| a@))
}

fn command_of(program: &str, args: &[&str]) -> (r: ClipboardCommand)
    ensures
        r.program@ == program@,
        r.args@.len() == args@.len(),
        forall|i: int| 0 <= i < args@.len() ==> (#[trigger] r.args@[i])@ == args@[i]@,
{
    let mut v: Vec<String> = Vec::new();
    for i in 0..args.len()
        invariant
            v@.len() == i,
            forall|k: int| 0 <= k < i ==> (#[trigger] v@[k])@ == args@[k]@,
    {
        v.push(String::from_str(args[i]));
    }
    ClipboardCommand { program: String::from_str(program), args: v }
}

/// The command that prints the clipboard's text.
pub fn text_read_command(display: DisplayServer) -> (r: ClipboardCommand)
    ensures
        command_view(r) == match display {
            DisplayServer::X11 => ("xclip"@, seq!["-selection"@, "clipboard"@, "-o"@]),
            DisplayServer::Wayland => ("wl-paste"@, seq!["--no-newline"@, "--type"@, "text/plain"@]),
        },
{
    let r = match display {
        DisplayServer::X11 => command_of("xclip", &["-selection", "clipboard", "-o"]),
        DisplayServer::Wayland => command_of("wl-paste", &["--no-newline", "--type", "text/plain"]),
    };
    proof {
        assert(command_view(r).1 =~= match display {
            DisplayServer::X11 => seq!["-selection"@, "clipboard"@, "-o"@],
            DisplayServer::Wayland => seq!["--no-newline"@, "--type"@, "text/plain"@],
        });
    }
    r
}

/// The command that prints the clipboard's PNG image.
pub fn image_read_command(display: DisplayServer) -> (r: ClipboardCommand)
    ensures
        command_view(r) == match display {
            DisplayServer::X11 => ("xclip"@, seq!["-selection"@, "clipboard"@, "-t"@, "image/png"@, "-o"@]),
            DisplayServer::Wayland => ("wl-paste"@, seq!["--no-newline"@, "--type"@, "image/png"@]),
        },
{
    let r = match display {
        DisplayServer::X11 => command_of("xclip", &["-selection", "clipboard", "-t", "image/png", "-o"]),
        DisplayServer::Wayland => command_of("wl-paste", &["--no-newline", "--type", "image/png"]),
    };
    proof {
        assert(command_view(r).1 =~= match display {
            DisplayServer::X11 => seq!["-selection"@, "clipboard"@, "-t"@, "image/png"@, "-o"@],
            DisplayServer::Wayland => seq!["--no-newline"@, "--type"@, "image/png"@],
        });
    }
    r
}

/// The text that `String::from_utf8_lossy` makes of `bytes`.
pub uninterp spec fn utf8_lossy(bytes: Seq<u8>) -> Seq<char>;

/// Calls `String::from_utf8_lossy`. Trusted: the result is the text named
/// `utf8_lossy` of the bytes, and valid UTF-8 comes back decoded unchanged.
/// What it makes of invalid sequences (U+FFFD in their place) is left unsaid.
#[verifier::external_body]
fn decode_lossy(bytes: &[u8]) -> (r: String)
    ensures
        r@ == utf8_lossy(bytes@),
        valid_utf8(bytes@) ==> r@ == decode_utf8(bytes@),
{
    String::from_utf8_lossy(bytes).into_owned()
}

/// How long a clipboard tool may run before it is killed, in milliseconds.
pub fn clipboard_read_timeout_ms() -> (r: u64)
    ensures
        r == 1500,
{
    1500
}

/// How long the watcher waits between two clipboard reads, in milliseconds.
pub fn poll_interval_ms() -> (r: u64)
    ensures
        r == 500,
{
    500
}

/// The text a clipboard read gives: the tool's output, decoded, when it
/// exited successfully; nothing otherwise.
pub fn clipboard_text(success: bool, stdout: &[u8]) -> (r: Option<String>)
    ensures
        r is Some <==> success,
        r matches Some(t) ==> t@ == utf8_lossy(stdout@) && (valid_utf8(stdout@) ==> t@ == decode_utf8(
            stdout@,
        )),
{
    if success {
        Some(decode_lossy(stdout))
    } else {
        None
    }
}

/// The image a clipboard read gives: the tool's output when it exited
/// successfully with some bytes; nothing otherwise.
pub fn clipboard_image(success: bool, stdout: Vec<u8>) -> (r: Option<Vec<u8>>)
    ensures
        r is Some <==> success && stdout@.len() > 0,
        r matches Some(b) ==> b@ == stdout@,
{
    if success && stdout.len() > 0 {
        Some(stdout)
    } else {
        None
    }
}

/// How many bytes of copied text the history keeps as a preview.
pub open spec fn preview_bytes() -> int {
    200
}

/// The entry for copied text with the given hash, its preview being the
/// text cut to 200 bytes.
pub fn text_item(text: String, hash: String) -> (r: NewClipboardItem)
    requires
        cuts_on_char_boundary(text@, preview_bytes()),
    ensures
        r.content_type == ContentType::Text,
        r.text_content == Some(text),
        r.image_path is None,
        r.preview matches Some(p) && p@ == byte_prefix(text@, preview_bytes()),
        r.hash == hash,
{
    let preview = byte_prefix_of(text.as_str(), 200);
    NewClipboardItem {
        content_type: ContentType::Text,
        text_content: Some(text),
        image_path: None,
        preview: Some(preview),
        hash,
    }
}

/// The entry for a copied image with the given hash, saved at `path`.
pub fn image_item(hash: String, path: String) -> (r: NewClipboardItem)
    ensures
        r.content_type == ContentType::Image,
        r.text_content is None,
        r.image_path == Some(path),
        r.preview is None,
        r.hash == hash,
{
    NewClipboardItem {
        content_type: ContentType::Image,
        text_content: None,
        image_path: Some(path),
        preview: None,
        hash,
    }
}

/// The file name under which a captured image is saved: its hash and `.png`.
pub fn image_file_name(hash: &str) -> (r: String)
    ensures
        r@ == hash@ + ".png"@,
{
    let mut r = String::from_str(hash);
    r.append(".png");
    r
}

/// What reading text from the clipboard amounted to.
#[derive(Debug)]
pub enum TextObservation {
    /// The clipboard holds no text.
    Empty,
    /// The same content as the last capture.
    Unchanged,
    /// A new copy, to be stored.
    Captured(NewClipboardItem),
    /// A new copy whose 200-byte preview would split a character; capturing
    /// it stops the watcher.
    PreviewSplitsCharacter,
}

/// What reading an image from the clipboard amounted to.
#[derive(Debug)]
pub enum ImageObservation {
    /// The clipboard holds no image.
    Empty,
    /// The same content as the last capture.
    Unchanged,
    /// A new image with this hash, to be saved and stored.
    Captured(String),
}

/// Remembers the hash of the last captured content, text or image, so that
/// content is captured once however often it is read.
pub struct ClipboardWatcher {
    last_hash: String,
}

impl ClipboardWatcher {
    /// The hash of the last captured content; empty before the first capture.
    pub closed spec fn last_hash(&self) -> Seq<char> {
        self.last_hash@
    }

    pub fn new() -> (w: Self)
        ensures
            w.last_hash() == Seq::<char>::empty(),
    {
        ClipboardWatcher { last_hash: String::new() }
    }

    /// Decides what text read from the clipboard is: nothing, the content
    /// captured last, or a new copy, whose hash becomes the last one.
    pub fn observe_text(&mut self, text: String) -> (r: TextObservation)
        ensures
            text@.len() > 0 ==> hex_lower(sha256(encode_utf8(text@))).len() == 64,
            ({
                let h = hex_lower(sha256(encode_utf8(text@)));
                if text@.len() == 0 {
                    r is Empty && final(self).last_hash() == old(self).last_hash()
                } else if h == old(self).last_hash() {
                    r is Unchanged && final(self).last_hash() == old(self).last_hash()
                } else {
                    &&& final(self).last_hash() == h
                    &&& if cuts_on_char_boundary(text@, preview_bytes()) {
                        &&& r matches TextObservation::Captured(item)
                        &&& item.content_type == ContentType::Text
                        &&& item.text_content == Some(text)
                        &&& item.image_path is None
                        &&& item.preview matches Some(p) && p@ == byte_prefix(
                            text@,
                            preview_bytes(),
                        )
                        &&& item.hash@ == h
                    } else {
                        r is PreviewSplitsCharacter
                    }
                }
            }),
    {
        if text.as_str().is_empty() {
            return TextObservation::Empty;
        }
        let hash = compute_hash(text.as_str().as_bytes());
        if hash == self.last_hash {
            return TextObservation::Unchanged;
        }
        self.last_hash = hash.clone();
        if !cuts_on_char_boundary_exec(text.as_str(), 200) {
            return TextObservation::PreviewSplitsCharacter;
        }
        TextObservation::Captured(text_item(text, hash))
    }

    /// Decides what image bytes read from the clipboard are: nothing, the
    /// content captured last, or a new image, whose hash becomes the last one.
    pub fn observe_image(&mut self, image: &[u8]) -> (r: ImageObservation)
        ensures
            image@.len() > 0 ==> hex_lower(sha256(image@)).len() == 64,
            ({
                let h = hex_lower(sha256(image@));
                if image@.len() == 0 {
                    r is Empty && final(self).last_hash() == old(self).last_hash()
                } else if h == old(self).last_hash() {
                    r is Unchanged && final(self).last_hash() == old(self).last_hash()
                } else {
                    r matches ImageObservation::Captured(hash) && hash@ == h
                        && final(self).last_hash() == h
                }
            }),
    {
        if image.len() == 0 {
            return ImageObservation::Empty;
        }
        let hash = compute_hash(image);
        if hash == self.last_hash {
            return ImageObservation::Unchanged;
        }
        self.last_hash = hash.clone();
        ImageObservation::Captured(hash)
    }
}

} // verus!
