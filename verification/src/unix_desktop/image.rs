//! The clipboard as an image, through the helper programs of the session.
use crate::text::same_text;
use crate::unix_desktop::commands::DisplaySession;
use vstd::prelude::*;

verus! {

/// An image with the file name extension of its format.
#[derive(Debug, Clone, PartialEq, Eq)]
pub struct ClipboardImage {
    pub bytes: Vec<u8>,
    pub extension: &'static str,
}

// ---------------------------------------------------------------------------
// Formats
// ---------------------------------------------------------------------------

/// `bytes` starts with `prefix`.
pub open spec fn has_prefix(bytes: Seq<u8>, prefix: Seq<u8>) -> bool {
    prefix.len() <= bytes.len() && bytes.take(prefix.len() as int) == prefix
}

/// The number that four bytes denote, the lowest first.
pub open spec fn little_endian(bytes: Seq<u8>, at: int) -> int {
    bytes[at] + 0x100 * bytes[at + 1] + 0x1_0000 * bytes[at + 2] + 0x100_0000 * bytes[at + 3]
}

/// `bytes` can be an image of the format with this extension. A bitmap also says where its pixels
/// start, which is behind the smallest headers and not behind the end.
pub open spec fn has_signature(extension: Seq<char>, bytes: Seq<u8>) -> bool {
    if extension == "png"@ {
        has_prefix(bytes, seq![0x89u8, 0x50, 0x4e, 0x47, 0x0d, 0x0a, 0x1a, 0x0a])
    } else if extension == "jpg"@ {
        has_prefix(bytes, seq![0xffu8, 0xd8, 0xff])
    } else if extension == "gif"@ {
        has_prefix(bytes, seq![0x47u8, 0x49, 0x46, 0x38, 0x37, 0x61]) || has_prefix(
            bytes,
            seq![0x47u8, 0x49, 0x46, 0x38, 0x39, 0x61],
        )
    } else if extension == "webp"@ {
        &&& bytes.len() >= 12
        &&& has_prefix(bytes, seq![0x52u8, 0x49, 0x46, 0x46])
        &&& bytes.subrange(8, 12) == seq![0x57u8, 0x45, 0x42, 0x50]
    } else if extension == "bmp"@ {
        &&& bytes.len() >= 26
        &&& has_prefix(bytes, seq![0x42u8, 0x4d])
        &&& 26 <= little_endian(bytes, 10) <= bytes.len()
    } else {
        false
    }
}

/// Whether `bytes` holds `part` from `at` on.
fn holds_at(bytes: &[u8], at: usize, part: &[u8]) -> (holds: bool)
    ensures
        holds == (at + part@.len() <= bytes@.len() && bytes@.subrange(
            at as int,
            at + part@.len(),
        ) == part@),
{
    if at > bytes.len() || part.len() > bytes.len() - at {
        return false;
    }
    let mut i: usize = 0;
    while i < part.len()
        invariant
            at + part@.len() <= bytes@.len(),
            bytes@.len() == bytes.len(),
            i <= part@.len(),
            forall|k: int| 0 <= k < i ==> bytes@[at + k] == #[trigger] part@[k],
        decreases part@.len() - i,
    {
        if bytes[at + i] != part[i] {
            assert(bytes@.subrange(at as int, at + part@.len())[i as int] != part@[i as int]);
            return false;
        }
        i = i + 1;
    }
    assert(bytes@.subrange(at as int, at + part@.len()) =~= part@);
    true
}

/// Whether `bytes` starts with `prefix`.
fn starts_with(bytes: &[u8], prefix: &[u8]) -> (starts: bool)
    ensures
        starts == has_prefix(bytes@, prefix@),
{
    proof {
        if prefix@.len() <= bytes@.len() {
            assert(bytes@.subrange(0, prefix@.len() as int) =~= bytes@.take(prefix@.len() as int));
        }
    }
    holds_at(bytes, 0, prefix)
}

/// The number that the four bytes from `at` on denote, the lowest first.
fn read_little_endian(bytes: &[u8], at: usize) -> (number: u32)
    requires
        at + 4 <= bytes@.len(),
    ensures
        number == little_endian(bytes@, at as int),
{
    bytes[at] as u32 + 0x100 * bytes[at + 1] as u32 + 0x1_0000 * bytes[at + 2] as u32 + 0x100_0000
        * bytes[at + 3] as u32
}

/// Whether `bytes` can be an image of the format with this extension.
pub fn bytes_match_image_signature(extension: &str, bytes: &[u8]) -> (matching: bool)
    ensures
        matching == has_signature(extension@, bytes@),
{
    if same_text(extension, "png") {
        let magic: [u8; 8] = [0x89, 0x50, 0x4e, 0x47, 0x0d, 0x0a, 0x1a, 0x0a];
        assert(magic@ =~= seq![0x89u8, 0x50, 0x4e, 0x47, 0x0d, 0x0a, 0x1a, 0x0a]);
        starts_with(bytes, &magic)
    } else if same_text(extension, "jpg") {
        let magic: [u8; 3] = [0xff, 0xd8, 0xff];
        assert(magic@ =~= seq![0xffu8, 0xd8, 0xff]);
        starts_with(bytes, &magic)
    } else if same_text(extension, "gif") {
        let older: [u8; 6] = [0x47, 0x49, 0x46, 0x38, 0x37, 0x61];
        let newer: [u8; 6] = [0x47, 0x49, 0x46, 0x38, 0x39, 0x61];
        assert(older@ =~= seq![0x47u8, 0x49, 0x46, 0x38, 0x37, 0x61]);
        assert(newer@ =~= seq![0x47u8, 0x49, 0x46, 0x38, 0x39, 0x61]);
        starts_with(bytes, &older) || starts_with(bytes, &newer)
    } else if same_text(extension, "webp") {
        let container: [u8; 4] = [0x52, 0x49, 0x46, 0x46];
        let format: [u8; 4] = [0x57, 0x45, 0x42, 0x50];
        assert(container@ =~= seq![0x52u8, 0x49, 0x46, 0x46]);
        assert(format@ =~= seq![0x57u8, 0x45, 0x42, 0x50]);
        bytes.len() >= 12 && starts_with(bytes, &container) && holds_at(bytes, 8, &format)
    } else if same_text(extension, "bmp") {
        let magic: [u8; 2] = [0x42, 0x4d];
        assert(magic@ =~= seq![0x42u8, 0x4d]);
        if bytes.len() < 26 || !starts_with(bytes, &magic) {
            return false;
        }
        let offset: usize = read_little_endian(bytes, 10) as usize;
        26 <= offset && offset <= bytes.len()
    } else {
        false
    }
}

/// No bytes can be images of two formats.
pub proof fn image_formats_exclude_each_other(
    one: Seq<char>,
    other: Seq<char>,
    bytes: Seq<u8>,
)
    requires
        has_signature(one, bytes),
        has_signature(other, bytes),
    ensures
        one == other,
{
    lemma_first_byte(one, bytes);
    lemma_first_byte(other, bytes);
}

/// The first byte of an image tells its format.
proof fn lemma_first_byte(extension: Seq<char>, bytes: Seq<u8>)
    requires
        has_signature(extension, bytes),
    ensures
        bytes.len() > 0,
        extension == "png"@ ==> bytes[0] == 0x89,
        extension == "jpg"@ ==> bytes[0] == 0xff,
        extension == "gif"@ ==> bytes[0] == 0x47,
        extension == "webp"@ ==> bytes[0] == 0x52,
        extension == "bmp"@ ==> bytes[0] == 0x42,
{
    lemma_extensions_differ();
    assert forall|prefix: Seq<u8>| #[trigger] has_prefix(bytes, prefix) && prefix.len() > 0 implies
        bytes.len() > 0 && bytes[0] == prefix[0] by {
        assert(bytes.take(prefix.len() as int)[0] == bytes[0]);
    }
}

/// Every PNG image is recognised, whatever follows its first eight bytes, and nothing else is.
pub proof fn png_images_are_recognised(rest: Seq<u8>, bytes: Seq<u8>)
    ensures
        has_signature("png"@, seq![0x89u8, 0x50, 0x4e, 0x47, 0x0d, 0x0a, 0x1a, 0x0a] + rest),
        has_signature("png"@, bytes) ==> bytes.len() >= 8 && bytes == seq![
            0x89u8,
            0x50,
            0x4e,
            0x47,
            0x0d,
            0x0a,
            0x1a,
            0x0a,
        ] + bytes.skip(8),
{
    let magic = seq![0x89u8, 0x50, 0x4e, 0x47, 0x0d, 0x0a, 0x1a, 0x0a];
    assert((magic + rest).take(8) =~= magic);
    if has_signature("png"@, bytes) {
        assert(bytes =~= bytes.take(8) + bytes.skip(8));
    }
}

/// Every JPEG image is recognised, whatever follows its first three bytes, and nothing else is.
pub proof fn jpeg_images_are_recognised(rest: Seq<u8>, bytes: Seq<u8>)
    ensures
        has_signature("jpg"@, seq![0xffu8, 0xd8, 0xff] + rest),
        has_signature("jpg"@, bytes) ==> bytes.len() >= 3 && bytes == seq![0xffu8, 0xd8, 0xff]
            + bytes.skip(3),
{
    lemma_extensions_differ();
    let magic = seq![0xffu8, 0xd8, 0xff];
    assert((magic + rest).take(3) =~= magic);
    if has_signature("jpg"@, bytes) {
        assert(bytes =~= bytes.take(3) + bytes.skip(3));
    }
}

/// Every GIF image of either version is recognised, whatever follows the version, and nothing else
/// is.
pub proof fn gif_images_are_recognised(rest: Seq<u8>, bytes: Seq<u8>)
    ensures
        has_signature("gif"@, seq![0x47u8, 0x49, 0x46, 0x38, 0x37, 0x61] + rest),
        has_signature("gif"@, seq![0x47u8, 0x49, 0x46, 0x38, 0x39, 0x61] + rest),
        has_signature("gif"@, bytes) ==> bytes.len() >= 6 && (bytes == seq![
            0x47u8,
            0x49,
            0x46,
            0x38,
            0x37,
            0x61,
        ] + bytes.skip(6) || bytes == seq![0x47u8, 0x49, 0x46, 0x38, 0x39, 0x61] + bytes.skip(6)),
{
    lemma_extensions_differ();
    let older = seq![0x47u8, 0x49, 0x46, 0x38, 0x37, 0x61];
    let newer = seq![0x47u8, 0x49, 0x46, 0x38, 0x39, 0x61];
    assert((older + rest).take(6) =~= older);
    assert((newer + rest).take(6) =~= newer);
    if has_signature("gif"@, bytes) {
        assert(bytes =~= bytes.take(6) + bytes.skip(6));
    }
}

/// Every WebP image is recognised, whatever size its container states and whatever follows, and
/// nothing else is.
pub proof fn webp_images_are_recognised(size: Seq<u8>, rest: Seq<u8>, bytes: Seq<u8>)
    requires
        size.len() == 4,
    ensures
        has_signature(
            "webp"@,
            seq![0x52u8, 0x49, 0x46, 0x46] + size + seq![0x57u8, 0x45, 0x42, 0x50] + rest,
        ),
        has_signature("webp"@, bytes) ==> bytes.len() >= 12 && bytes == seq![
            0x52u8,
            0x49,
            0x46,
            0x46,
        ] + bytes.subrange(4, 8) + seq![0x57u8, 0x45, 0x42, 0x50] + bytes.skip(12),
{
    lemma_extensions_differ();
    let container = seq![0x52u8, 0x49, 0x46, 0x46];
    let format = seq![0x57u8, 0x45, 0x42, 0x50];
    let image = container + size + format + rest;
    assert(image.take(4) =~= container);
    assert(image.subrange(8, 12) =~= format);
    if has_signature("webp"@, bytes) {
        assert(bytes =~= bytes.take(4) + bytes.subrange(4, 8) + bytes.subrange(8, 12) + bytes.skip(
            12,
        ));
    }
}

/// A bitmap is recognised exactly where its pixels start behind the smallest headers and not behind
/// its end, whatever else it holds. Bytes that are shorter than the smallest headers, or that do not
/// start as a bitmap does, are none.
pub proof fn bitmaps_are_recognised(bytes: Seq<u8>, offset: u32)
    ensures
        bytes.len() >= 26 && bytes[0] == 0x42 && bytes[1] == 0x4d && bytes[10] == offset % 256
            && bytes[11] == (offset / 256) % 256 && bytes[12] == (offset / 65536) % 256
            && bytes[13] == offset / 16777216 ==> (has_signature("bmp"@, bytes) <==> 26 <= offset
            <= bytes.len()),
        bytes.len() < 26 || bytes[0] != 0x42 || bytes[1] != 0x4d ==> !has_signature("bmp"@, bytes),
{
    lemma_extensions_differ();
    let magic = seq![0x42u8, 0x4d];
    if bytes.len() >= 26 {
        assert(bytes.take(2)[0] == bytes[0] && bytes.take(2)[1] == bytes[1]);
        if bytes[0] == 0x42 && bytes[1] == 0x4d {
            assert(bytes.take(2) =~= magic);
        } else if has_prefix(bytes, magic) {
            assert(magic[0] == bytes[0] && magic[1] == bytes[1]);
        }
    }
}

/// Bytes are taken for an image of these five formats alone.
pub proof fn other_formats_are_refused(extension: Seq<char>, bytes: Seq<u8>)
    requires
        has_signature(extension, bytes),
    ensures
        extension == "png"@ || extension == "jpg"@ || extension == "gif"@ || extension == "webp"@
            || extension == "bmp"@,
{
}

/// The extensions of the formats are different texts.
proof fn lemma_extensions_differ()
    ensures
        "png"@ != "jpg"@ && "png"@ != "gif"@ && "png"@ != "webp"@ && "png"@ != "bmp"@,
        "jpg"@ != "gif"@ && "jpg"@ != "webp"@ && "jpg"@ != "bmp"@,
        "gif"@ != "webp"@ && "gif"@ != "bmp"@,
        "webp"@ != "bmp"@,
{
    reveal_strlit("png");
    reveal_strlit("jpg");
    reveal_strlit("gif");
    reveal_strlit("webp");
    reveal_strlit("bmp");
    assert("png"@[0] != "jpg"@[0] && "png"@[0] != "gif"@[0] && "png"@[0] != "webp"@[0] && "png"@[0]
        != "bmp"@[0]);
    assert("jpg"@[0] != "gif"@[0] && "jpg"@[0] != "webp"@[0] && "jpg"@[0] != "bmp"@[0]);
    assert("gif"@[0] != "webp"@[0] && "gif"@[0] != "bmp"@[0]);
    assert("webp"@[0] != "bmp"@[0]);
}

// ---------------------------------------------------------------------------
// Reading
// ---------------------------------------------------------------------------

/// The image in what a helper gave, if it is of the format that was asked for.
pub open spec fn validated(bytes: Option<Vec<u8>>, extension: &'static str) -> Option<
    ClipboardImage,
> {
    match bytes {
        Some(bytes) => if has_signature(extension@, bytes@) {
            Some(ClipboardImage { bytes, extension })
        } else {
            None
        },
        None => None,
    }
}

/// What a helper gave is taken as it is, under the extension that was asked for, whenever it is an
/// image of that format, and only then.
pub proof fn images_are_taken_as_they_are(bytes: Vec<u8>, extension: &'static str)
    ensures
        validated(Some(bytes), extension) is Some <==> has_signature(extension@, bytes@),
        validated(Some(bytes), extension) matches Some(image) ==> image.bytes@ == bytes@
            && image.extension@ == extension@,
        validated(None, extension) is None,
{
}

/// Asks a helper for an image of a format, and takes only an image of that format for one. `read`
/// asks the helper.
pub fn read_validated_clipboard_image<R>(
    program: &str,
    args: &[&str],
    extension: &'static str,
    read: &R,
) -> (image: Option<ClipboardImage>) where R: Fn(&str, &[&str]) -> Option<Vec<u8>>
    requires
        call_requires(*read, (program, args)),
    ensures
        exists|bytes: Option<Vec<u8>>| #[trigger]
            call_ensures(*read, (program, args), bytes) && image == validated(bytes, extension),
        image matches Some(image) ==> has_signature(image.extension@, image.bytes@),
{
    let answer: Option<Vec<u8>> = read(program, args);
    let ghost given = answer;
    assert(call_ensures(*read, (program, args), given));
    match answer {
        Some(bytes) => if bytes_match_image_signature(extension, bytes.as_slice()) {
            Some(ClipboardImage { bytes, extension })
        } else {
            None
        },
        None => None,
    }
}

/// A helper to ask for an image of a format.
pub struct ImageSource {
    pub program: &'static str,
    pub args: Vec<&'static str>,
    pub extension: &'static str,
}

/// A helper to ask for an image of a format, as plain text.
pub struct ImageSourceView {
    pub program: Seq<char>,
    pub args: Seq<Seq<char>>,
    pub extension: Seq<char>,
}

impl View for ImageSource {
    type V = ImageSourceView;

    open spec fn view(&self) -> ImageSourceView {
        ImageSourceView {
            program: self.program@,
            args: crate::unix_desktop::commands::arg_texts(self.args@),
            extension: self.extension@,
        }
    }
}

/// The sources of a list as plain text.
pub open spec fn source_views(sources: Seq<ImageSource>) -> Seq<ImageSourceView> {
    Seq::new(sources.len(), |i: int| sources[i]@)
}

/// The formats that are asked for, in order, with their extensions.
pub open spec fn image_formats() -> Seq<(Seq<char>, Seq<char>)> {
    seq![
        ("image/png"@, "png"@),
        ("image/jpeg"@, "jpg"@),
        ("image/jpg"@, "jpg"@),
        ("image/gif"@, "gif"@),
        ("image/webp"@, "webp"@),
        ("image/bmp"@, "bmp"@),
    ]
}

/// The helpers that are asked for one format: Wayland before X11.
pub open spec fn format_sources(
    session: DisplaySession,
    mime: Seq<char>,
    extension: Seq<char>,
) -> Seq<ImageSourceView> {
    (if session.wayland {
        seq![ImageSourceView { program: "wl-paste"@, args: seq!["--type"@, mime], extension }]
    } else {
        Seq::empty()
    }) + (if session.x11 {
        seq![
            ImageSourceView {
                program: "xclip"@,
                args: seq!["-selection"@, "clipboard"@, "-t"@, mime, "-o"@],
                extension,
            },
        ]
    } else {
        Seq::empty()
    })
}

/// The helpers that are asked for the first `formats` formats: every format at each display server
/// before the next format.
pub open spec fn display_sources(session: DisplaySession, formats: nat) -> Seq<ImageSourceView>
    decreases formats,
{
    if formats == 0 {
        Seq::empty()
    } else {
        let (mime, extension) = image_formats()[formats - 1];
        display_sources(session, (formats - 1) as nat) + format_sources(session, mime, extension)
    }
}

/// The Windows clipboard, asked from inside the Windows subsystem. It gives every image as PNG.
pub open spec fn windows_source() -> ImageSourceView {
    ImageSourceView {
        program: "powershell.exe"@,
        args: seq![
            "-NoProfile"@,
            "-NonInteractive"@,
            "-STA"@,
            "-Command"@,
            "$ErrorActionPreference='Stop'; Add-Type -AssemblyName System.Windows.Forms; Add-Type -AssemblyName System.Drawing; $image=[System.Windows.Forms.Clipboard]::GetImage(); if ($null -eq $image) { exit 1 }; $stream=[System.IO.MemoryStream]::new(); try { $image.Save($stream, [System.Drawing.Imaging.ImageFormat]::Png); [Console]::OpenStandardOutput().Write($stream.GetBuffer(), 0, [int]$stream.Length) } finally { $stream.Dispose(); $image.Dispose() }"@,
        ],
        extension: "png"@,
    }
}

/// The helpers that are asked for an image: the Windows clipboard first where there is one, then
/// the display servers.
pub open spec fn image_source_views(wsl: bool, session: DisplaySession) -> Seq<ImageSourceView> {
    (if wsl {
        seq![windows_source()]
    } else {
        Seq::empty()
    }) + display_sources(session, 6)
}

/// Each format is asked for at each display server that there is, Wayland before X11, in the order
/// of the formats, and behind the Windows clipboard where there is one. Nothing else is asked.
pub proof fn every_format_is_asked_for(wsl: bool, session: DisplaySession)
    ensures
        ({
            let sources = image_source_views(wsl, session);
            let first: int = if wsl { 1 } else { 0 };
            let servers: int = if session.wayland && session.x11 {
                2
            } else if session.wayland || session.x11 {
                1
            } else {
                0
            };
            let types = seq![
                "image/png"@,
                "image/jpeg"@,
                "image/jpg"@,
                "image/gif"@,
                "image/webp"@,
                "image/bmp"@,
            ];
            let extensions = seq!["png"@, "jpg"@, "jpg"@, "gif"@, "webp"@, "bmp"@];
            &&& sources.len() == first + 6 * servers
            &&& wsl ==> {
                &&& sources[0].program == "powershell.exe"@
                &&& sources[0].args.len() == 5
                &&& sources[0].args[0] == "-NoProfile"@
                &&& sources[0].args[1] == "-NonInteractive"@
                &&& sources[0].args[2] == "-STA"@
                &&& sources[0].args[3] == "-Command"@
                &&& sources[0].args[4]
                    == "$ErrorActionPreference='Stop'; Add-Type -AssemblyName System.Windows.Forms; Add-Type -AssemblyName System.Drawing; $image=[System.Windows.Forms.Clipboard]::GetImage(); if ($null -eq $image) { exit 1 }; $stream=[System.IO.MemoryStream]::new(); try { $image.Save($stream, [System.Drawing.Imaging.ImageFormat]::Png); [Console]::OpenStandardOutput().Write($stream.GetBuffer(), 0, [int]$stream.Length) } finally { $stream.Dispose(); $image.Dispose() }"@
                &&& sources[0].extension == "png"@
            }
            &&& session.wayland ==> forall|format: int|
                #![trigger types[format]]
                0 <= format < 6 ==> sources[first + servers * format] == (ImageSourceView {
                    program: "wl-paste"@,
                    args: seq!["--type"@, types[format]],
                    extension: extensions[format],
                })
            &&& session.x11 ==> forall|format: int|
                #![trigger types[format]]
                0 <= format < 6 ==> sources[first + servers * format + servers - 1] == (
                ImageSourceView {
                    program: "xclip"@,
                    args: seq!["-selection"@, "clipboard"@, "-t"@, types[format], "-o"@],
                    extension: extensions[format],
                })
        }),
{
    reveal_with_fuel(display_sources, 7);
    let types = seq![
        "image/png"@,
        "image/jpeg"@,
        "image/jpg"@,
        "image/gif"@,
        "image/webp"@,
        "image/bmp"@,
    ];
    assert forall|format: int| #![trigger types[format]] 0 <= format < 6 implies format == 0
        || format == 1 || format == 2 || format == 3 || format == 4 || format == 5 by {}
}

/// The Windows clipboard as a source.
fn windows_image_source() -> (source: ImageSource)
    ensures
        source@ == windows_source(),
{
    let args: Vec<&'static str> = vec![
        "-NoProfile",
        "-NonInteractive",
        "-STA",
        "-Command",
        "$ErrorActionPreference='Stop'; Add-Type -AssemblyName System.Windows.Forms; Add-Type -AssemblyName System.Drawing; $image=[System.Windows.Forms.Clipboard]::GetImage(); if ($null -eq $image) { exit 1 }; $stream=[System.IO.MemoryStream]::new(); try { $image.Save($stream, [System.Drawing.Imaging.ImageFormat]::Png); [Console]::OpenStandardOutput().Write($stream.GetBuffer(), 0, [int]$stream.Length) } finally { $stream.Dispose(); $image.Dispose() }",
    ];
    let source = ImageSource { program: "powershell.exe", args, extension: "png" };
    assert(source@.args =~= windows_source().args);
    source
}

/// Adds the helpers that are asked for one format.
fn push_format(
    sources: &mut Vec<ImageSource>,
    session: DisplaySession,
    mime: &'static str,
    extension: &'static str,
)
    ensures
        source_views(final(sources)@) == source_views(old(sources)@) + format_sources(
            session,
            mime@,
            extension@,
        ),
{
    let ghost before = sources@;
    if session.wayland {
        let args: Vec<&'static str> = vec!["--type", mime];
        let wl_paste = ImageSource { program: "wl-paste", args, extension };
        assert(wl_paste@.args =~= seq!["--type"@, mime@]);
        sources.push(wl_paste);
    }
    if session.x11 {
        let args: Vec<&'static str> = vec!["-selection", "clipboard", "-t", mime, "-o"];
        let xclip = ImageSource { program: "xclip", args, extension };
        assert(xclip@.args =~= seq!["-selection"@, "clipboard"@, "-t"@, mime@, "-o"@]);
        sources.push(xclip);
    }
    assert(source_views(sources@) =~= source_views(before) + format_sources(
        session,
        mime@,
        extension@,
    ));
}

/// The helpers that are asked for an image, in order.
pub fn image_sources(wsl: bool, session: DisplaySession) -> (sources: Vec<ImageSource>)
    ensures
        source_views(sources@) == image_source_views(wsl, session),
{
    let mut sources: Vec<ImageSource> = Vec::new();
    if wsl {
        sources.push(windows_image_source());
    }
    let ghost first = source_views(sources@);
    assert(first =~= if wsl {
        seq![windows_source()]
    } else {
        Seq::empty()
    });
    push_format(&mut sources, session, "image/png", "png");
    push_format(&mut sources, session, "image/jpeg", "jpg");
    push_format(&mut sources, session, "image/jpg", "jpg");
    push_format(&mut sources, session, "image/gif", "gif");
    push_format(&mut sources, session, "image/webp", "webp");
    push_format(&mut sources, session, "image/bmp", "bmp");
    proof {
        reveal_with_fuel(display_sources, 7);
        assert(source_views(sources@) =~= first + display_sources(session, 6));
    }
    sources
}

/// `image` is what came of asking `source`.
pub open spec fn is_asked<R>(read: R, source: ImageSource, image: Option<ClipboardImage>) -> bool where
    R: Fn(&str, &[&str]) -> Option<Vec<u8>>,
 {
    exists|args: &[&str], bytes: Option<Vec<u8>>|
        args@ == source.args@ && #[trigger] call_ensures(read, (source.program, args), bytes)
            && image == validated(bytes, source.extension)
}

/// `images` are what came of asking the sources in turn.
pub open spec fn are_asked<R>(
    read: R,
    sources: Seq<ImageSource>,
    images: Seq<Option<ClipboardImage>>,
) -> bool where R: Fn(&str, &[&str]) -> Option<Vec<u8>> {
    forall|i: int|
        0 <= i < images.len() ==> is_asked(read, sources[i], #[trigger] images[i])
}

/// Asks one source.
fn ask_source<R>(source: &ImageSource, read: &R) -> (image: Option<ClipboardImage>) where
    R: Fn(&str, &[&str]) -> Option<Vec<u8>>,

    requires
        forall|program: &str, args: &[&str]| #[trigger] call_requires(*read, (program, args)),
    ensures
        is_asked(*read, *source, image),
{
    let args: &[&str] = source.args.as_slice();
    read_validated_clipboard_image(source.program, args, source.extension, read)
}

/// Asks the Windows clipboard for an image.
pub fn read_wsl_clipboard_image_with_command<R>(read: &R) -> (image: Option<ClipboardImage>) where
    R: Fn(&str, &[&str]) -> Option<Vec<u8>>,

    requires
        forall|program: &str, args: &[&str]| #[trigger] call_requires(*read, (program, args)),
    ensures
        exists|source: ImageSource|
            source@ == windows_source() && #[trigger] is_asked(*read, source, image),
{
    let source: ImageSource = windows_image_source();
    ask_source(&source, read)
}

/// Asks the sources, one after the other, until one gives an image of the format that it was asked
/// for. `wsl` tells whether there is a Windows clipboard.
pub fn read_clipboard_image<R>(wsl: bool, session: DisplaySession, read: &R) -> (image: Option<
    ClipboardImage,
>) where R: Fn(&str, &[&str]) -> Option<Vec<u8>>
    requires
        forall|program: &str, args: &[&str]| #[trigger] call_requires(*read, (program, args)),
    ensures
        exists|sources: Seq<ImageSource>, images: Seq<Option<ClipboardImage>>|
            {
                &&& source_views(sources) == image_source_views(wsl, session)
                &&& #[trigger] are_asked(*read, sources, images)
                &&& crate::unix_desktop::commands::are_tries(
                    images,
                    |image: Option<ClipboardImage>| image is Some,
                    sources.len(),
                )
                &&& image == (if images.len() > 0 {
                    images.last()
                } else {
                    None
                })
            },
        image matches Some(image) ==> has_signature(image.extension@, image.bytes@),
{
    let sources: Vec<ImageSource> = image_sources(wsl, session);
    let ghost mut images: Seq<Option<ClipboardImage>> = Seq::empty();
    let mut i: usize = 0;
    while i < sources.len()
        invariant
            forall|program: &str, args: &[&str]| #[trigger] call_requires(*read, (program, args)),
            source_views(sources@) == image_source_views(wsl, session),
            i <= sources@.len(),
            images.len() == i,
            are_asked(*read, sources@, images),
            forall|k: int| 0 <= k < i ==> #[trigger] images[k] is None,
        decreases sources@.len() - i,
    {
        let image: Option<ClipboardImage> = ask_source(&sources[i], read);
        proof {
            images = images.push(image);
            assert(are_asked(*read, sources@, images));
        }
        if image.is_some() {
            return image;
        }
        i = i + 1;
    }
    None
}

/// The image of the clipboard is that of the first source that gives one of the format that it was
/// asked for, as it stands, and there is none only where no source does.
pub proof fn the_first_image_is_given<R>(
    read: R,
    wsl: bool,
    session: DisplaySession,
    sources: Seq<ImageSource>,
    images: Seq<Option<ClipboardImage>>,
    gives: spec_fn(Seq<char>, Seq<Seq<char>>) -> Option<Seq<u8>>,
) where R: Fn(&str, &[&str]) -> Option<Vec<u8>>
    requires
        source_views(sources) == image_source_views(wsl, session),
        are_asked(read, sources, images),
        crate::unix_desktop::commands::are_tries(
            images,
            |image: Option<ClipboardImage>| image is Some,
            sources.len(),
        ),
        forall|program: &str, args: &[&str], bytes: Option<Vec<u8>>| #[trigger]
            call_ensures(read, (program, args), bytes) ==> {
                let given = gives(
                    program@,
                    crate::unix_desktop::commands::arg_texts(args@),
                );
                &&& bytes is Some <==> given is Some
                &&& bytes is Some ==> bytes->0@ == given->0
            },
    ensures
        ({
            let views = image_source_views(wsl, session);
            let image = if images.len() > 0 {
                images.last()
            } else {
                None
            };
            &&& image matches Some(image) ==> {
                &&& images.len() <= views.len()
                &&& gives_image(views[images.len() - 1], gives)
                &&& gives(views[images.len() - 1].program, views[images.len() - 1].args) == Some(
                    image.bytes@,
                )
                &&& image.extension@ == views[images.len() - 1].extension
                &&& forall|k: int|
                    0 <= k < images.len() - 1 ==> !gives_image(#[trigger] views[k], gives)
            }
            &&& image is None ==> forall|k: int|
                0 <= k < views.len() ==> !gives_image(#[trigger] views[k], gives)
        }),
{
    let views = image_source_views(wsl, session);
    let helped = |image: Option<ClipboardImage>| image is Some;
    assert forall|i: int| 0 <= i < images.len() implies (#[trigger] images[i] is Some
        <==> gives_image(views[i], gives)) && (images[i] is Some ==> gives(
        views[i].program,
        views[i].args,
    ) == Some(images[i]->0.bytes@) && images[i]->0.extension@ == views[i].extension) by {
        assert(is_asked(read, sources[i], images[i]));
        assert(source_views(sources)[i] == sources[i]@);
        let (args, bytes) = choose|args: &[&str], bytes: Option<Vec<u8>>|
            args@ == sources[i].args@ && #[trigger] call_ensures(
                read,
                (sources[i].program, args),
                bytes,
            ) && images[i] == validated(bytes, sources[i].extension);
        assert(call_ensures(read, (sources[i].program, args), bytes));
    }
    assert forall|k: int| 0 <= k < images.len() - 1 implies !gives_image(
        #[trigger] views[k],
        gives,
    ) by {
        assert(!helped(images[k]));
    }
    if images.len() > 0 {
        assert(images[images.len() - 1] is Some <==> gives_image(views[images.len() - 1], gives));
    }
    if images.len() < views.len() {
        assert(helped(images.last()));
    }
}

/// The source gives an image of the format that it is asked for.
pub open spec fn gives_image(
    source: ImageSourceView,
    gives: spec_fn(Seq<char>, Seq<Seq<char>>) -> Option<Seq<u8>>,
) -> bool {
    let given = gives(source.program, source.args);
    given is Some && has_signature(source.extension, given->0)
}

/// The plain text of sources is that of each, none left out.
pub proof fn every_source_is_there(sources: Seq<ImageSource>)
    ensures
        source_views(sources).len() == sources.len(),
        forall|i: int|
            0 <= i < sources.len() ==> {
                let view = #[trigger] source_views(sources)[i];
                &&& view.program == sources[i].program@
                &&& view.args == crate::unix_desktop::commands::arg_texts(sources[i].args@)
                &&& view.extension == sources[i].extension@
            },
{
}

} // verus!
