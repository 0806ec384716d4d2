//! Images of messages: what they are, how they are copied and exported.
use crate::text::{trim, trimmed};
use vstd::prelude::*;
use vstd::utf8::valid_utf8;

verus! {

/// How much of a file is looked at to tell whether it is a drawing in SVG.
pub const SVG_PREFIX: usize = 1024;

/// Formats that can be copied.
#[derive(Debug, Clone, Copy, PartialEq, Eq, Structural)]
pub enum PictureFormat {
    Png,
    Jpeg,
    WebP,
    Gif,
    Bmp,
    Tiff,
    Svg,
}

impl DeepView for PictureFormat {
    type V = PictureFormat;

    open spec fn deep_view(&self) -> PictureFormat {
        *self
    }
}

/// Entries of the menu of an image.
#[derive(Debug, Clone, Copy, PartialEq, Eq, Structural)]
pub enum PictureAction {
    Enlarge,
    OpenElsewhere,
    Copy,
    SaveAs,
}

/// How an image gets to the clipboard.
#[derive(Debug, Clone, Copy, PartialEq, Eq, Structural)]
pub enum ClipboardWay {
    /// Through the window system.
    Native,
    /// Through a helper program, because the window system takes only text.
    Helper,
}

/// An image on its way to the clipboard.
#[derive(Debug, PartialEq, Eq)]
pub struct ClipboardPicture {
    pub format: PictureFormat,
    pub bytes: Vec<u8>,
}

/// Mathematical form of [`ClipboardPicture`].
#[verifier::ext_equal]
pub struct ClipboardPictureView {
    pub format: PictureFormat,
    pub bytes: Seq<u8>,
}

impl DeepView for ClipboardPicture {
    type V = ClipboardPictureView;

    open spec fn deep_view(&self) -> ClipboardPictureView {
        ClipboardPictureView {
            format: self.format,
            bytes: self.bytes.deep_view(),
        }
    }
}

impl Clone for ClipboardPicture {
    fn clone(&self) -> (copy: Self)
        ensures
            copy.deep_view() == self.deep_view(),
    {
        ClipboardPicture {
            format: self.format,
            bytes: self.bytes.clone(),
        }
    }
}

/// An image as a file.
#[derive(Debug, PartialEq, Eq)]
pub struct PictureFile {
    pub filename: String,
    pub mime: &'static str,
    pub size: u64,
    pub bytes: Vec<u8>,
}

/// Mathematical form of [`PictureFile`].
#[verifier::ext_equal]
pub struct PictureFileView {
    pub filename: Seq<char>,
    pub mime: Seq<char>,
    pub size: u64,
    pub bytes: Seq<u8>,
}

impl DeepView for PictureFile {
    type V = PictureFileView;

    open spec fn deep_view(&self) -> PictureFileView {
        PictureFileView {
            filename: self.filename.deep_view(),
            mime: self.mime.deep_view(),
            size: self.size,
            bytes: self.bytes.deep_view(),
        }
    }
}

impl Clone for PictureFile {
    fn clone(&self) -> (copy: Self)
        ensures
            copy.deep_view() == self.deep_view(),
    {
        PictureFile {
            filename: self.filename.clone(),
            mime: self.mime,
            size: self.size,
            bytes: self.bytes.clone(),
        }
    }
}


/// Whether `bytes` begin with `prefix`.
pub open spec fn begins_with(bytes: Seq<u8>, prefix: Seq<u8>) -> bool {
    bytes.len() >= prefix.len() && bytes.take(prefix.len() as int) == prefix
}

/// What every file in PNG begins with.
pub open spec fn png_signature() -> Seq<u8> {
    seq![0x89, 0x50, 0x4e, 0x47, 0x0d, 0x0a, 0x1a, 0x0a]
}

/// The format that the first bytes of a file tell, if it is one that can be copied.
pub open spec fn guessed_format(bytes: Seq<u8>) -> Option<PictureFormat> {
    if begins_with(bytes, png_signature()) {
        Some(PictureFormat::Png)
    } else if begins_with(bytes, seq![0xff, 0xd8, 0xff]) {
        Some(PictureFormat::Jpeg)
    } else if begins_with(bytes, seq![0x47, 0x49, 0x46, 0x38, 0x39, 0x61]) || begins_with(
        bytes,
        seq![0x47, 0x49, 0x46, 0x38, 0x37, 0x61],
    ) {
        Some(PictureFormat::Gif)
    } else if begins_with(bytes, seq![0x52, 0x49, 0x46, 0x46]) && bytes.len() >= 12 && bytes.subrange(8, 12) == seq![
        0x57u8,
        0x45,
        0x42,
        0x50,
    ] {
        Some(PictureFormat::WebP)
    } else if begins_with(bytes, seq![0x4d, 0x4d, 0x00, 0x2a]) || begins_with(bytes, seq![0x49, 0x49, 0x2a, 0x00]) {
        Some(PictureFormat::Tiff)
    } else if begins_with(bytes, seq![0x42, 0x4d]) {
        Some(PictureFormat::Bmp)
    } else {
        None
    }
}

/// Calls `image::guess_format`, which goes by the first bytes of a file: the signature of
/// PNG; `ff d8 ff` for JPEG; `GIF89a` or `GIF87a`; `RIFF`, four bytes of any value and
/// `WEBP`; `MM`, zero and `*`, or `II`, `*` and zero, for TIFF; and `BM` for BMP. Every other
/// answer of it is none here.
#[verifier::external_body]
fn guess_format(bytes: &Vec<u8>) -> (format: Option<PictureFormat>)
    ensures
        format == guessed_format(bytes@),
{
    match image::guess_format(bytes) {
        Ok(image::ImageFormat::Png) => Some(PictureFormat::Png),
        Ok(image::ImageFormat::Jpeg) => Some(PictureFormat::Jpeg),
        Ok(image::ImageFormat::WebP) => Some(PictureFormat::WebP),
        Ok(image::ImageFormat::Gif) => Some(PictureFormat::Gif),
        Ok(image::ImageFormat::Bmp) => Some(PictureFormat::Bmp),
        Ok(image::ImageFormat::Tiff) => Some(PictureFormat::Tiff),
        _ => None,
    }
}

/// Calls `std::str::from_utf8`, which accepts exactly the bytes that are valid UTF-8.
#[verifier::external_body]
fn is_utf8(bytes: &Vec<u8>) -> (valid: bool)
    ensures
        valid == valid_utf8(bytes@),
{
    std::str::from_utf8(bytes).is_ok()
}

/// Whether a byte is the given letter, in either case.
pub open spec fn is_letter_byte(byte: u8, lower: u8) -> bool {
    byte == lower || byte + 32 == lower
}

/// Whether the name of the element that a drawing is made of begins at `i`, after its
/// bracket.
pub open spec fn names_svg(bytes: Seq<u8>, i: int) -> bool {
    &&& 0 <= i
    &&& i + 4 <= bytes.len()
    &&& bytes[i] == 0x3c
    &&& is_letter_byte(bytes[i + 1], 0x73)
    &&& is_letter_byte(bytes[i + 2], 0x76)
    &&& is_letter_byte(bytes[i + 3], 0x67)
}

/// The part of a file that is looked at.
pub open spec fn looked_at(bytes: Seq<u8>) -> Seq<u8> {
    if bytes.len() <= SVG_PREFIX {
        bytes
    } else {
        bytes.take(SVG_PREFIX as int)
    }
}

/// Whether a file looks like a drawing in SVG: its beginning is text and holds the opening
/// of that element.
pub open spec fn svg_like(bytes: Seq<u8>) -> bool {
    valid_utf8(looked_at(bytes)) && exists|i: int| #[trigger] names_svg(looked_at(bytes), i)
}

/// Whether a file looks like a drawing in SVG.
pub fn looks_like_svg(bytes: &Vec<u8>) -> (yes: bool)
    ensures
        yes == svg_like(bytes@),
{
    let mut prefix: Vec<u8> = Vec::new();
    let mut k: usize = 0;
    while k < bytes.len() && k < SVG_PREFIX
        invariant
            k <= bytes.len(),
            k <= SVG_PREFIX,
            prefix@ == bytes@.take(k as int),
        decreases bytes.len() - k,
    {
        prefix.push(bytes[k]);
        assert(prefix@ =~= bytes@.take(k + 1));
        k += 1;
    }
    assert(prefix@ =~= looked_at(bytes@));
    if !is_utf8(&prefix) {
        return false;
    }
    let mut i: usize = 0;
    while i < prefix.len()
        invariant
            i <= prefix.len() <= SVG_PREFIX,
            prefix@ == looked_at(bytes@),
            valid_utf8(prefix@),
            forall|j: int| 0 <= j < i ==> !#[trigger] names_svg(prefix@, j),
        decreases prefix.len() - i,
    {
        if i + 4 <= prefix.len() && prefix[i] == 0x3c && (prefix[i + 1] == 0x73 || prefix[i + 1] == 0x53) && (prefix[i
            + 2] == 0x76 || prefix[i + 2] == 0x56) && (prefix[i + 3] == 0x67 || prefix[i + 3] == 0x47) {
            assert(names_svg(prefix@, i as int));
            return true;
        }
        i += 1;
    }
    assert forall|j: int| !#[trigger] names_svg(looked_at(bytes@), j) by {
        if 0 <= j < prefix@.len() {
            assert(!names_svg(prefix@, j));
        }
    }
    false
}

/// The format of an image to be copied, if it can be.
pub open spec fn clipboard_format(bytes: Seq<u8>) -> Option<PictureFormat> {
    if svg_like(bytes) {
        Some(PictureFormat::Svg)
    } else {
        guessed_format(bytes)
    }
}

/// An image for the clipboard, in the format it has. An image of another format cannot be
/// copied.
pub fn clipboard_image(bytes: Vec<u8>) -> (picture: Result<ClipboardPicture, &'static str>)
    ensures
        match clipboard_format(bytes@) {
            Some(format) => picture is Ok && picture->Ok_0.format == format && picture->Ok_0.bytes@ == bytes@,
            None => picture is Err && picture->Err_0@ == "viewer-image-copy-unsupported"@,
        },
{
    let format: Option<PictureFormat> = if looks_like_svg(&bytes) {
        Some(PictureFormat::Svg)
    } else {
        guess_format(&bytes)
    };
    match format {
        Some(format) => Ok(ClipboardPicture { format, bytes }),
        None => Err("viewer-image-copy-unsupported"),
    }
}

/// The type of an image, as messages name it.
pub open spec fn mime_of(bytes: Seq<u8>) -> Seq<char> {
    match clipboard_format(bytes) {
        Some(PictureFormat::Svg) => "image/svg+xml"@,
        Some(PictureFormat::Jpeg) => "image/jpeg"@,
        Some(PictureFormat::Gif) => "image/gif"@,
        Some(PictureFormat::WebP) => "image/webp"@,
        _ => "image/png"@,
    }
}

/// The type of an image, as messages name it.
pub fn mime_for_bytes(bytes: &Vec<u8>) -> (mime: &'static str)
    ensures
        mime@ == mime_of(bytes@),
{
    if looks_like_svg(bytes) {
        return "image/svg+xml";
    }
    match guess_format(bytes) {
        Some(PictureFormat::Jpeg) => "image/jpeg",
        Some(PictureFormat::Gif) => "image/gif",
        Some(PictureFormat::WebP) => "image/webp",
        Some(PictureFormat::Svg) => "image/svg+xml",
        _ => "image/png",
    }
}

/// An image as a file.
pub fn picture_file(filename: &String, bytes: Vec<u8>) -> (file: PictureFile)
    ensures
        file.filename@ == filename@,
        file.mime@ == mime_of(bytes@),
        file.size == bytes.len(),
        file.bytes@ == bytes@,
{
    PictureFile { filename: filename.clone(), mime: mime_for_bytes(&bytes), size: bytes.len() as u64, bytes }
}

/// Pixels with red and blue changed places, four bytes to a pixel. Bytes after the last
/// whole pixel stay.
pub open spec fn swapped(bytes: Seq<u8>) -> Seq<u8> {
    Seq::new(
        bytes.len(),
        |i: int|
            if i - i % 4 + 4 > bytes.len() {
                bytes[i]
            } else if i % 4 == 0 {
                bytes[i + 2]
            } else if i % 4 == 2 {
                bytes[i - 2]
            } else {
                bytes[i]
            },
    )
}

fn swap_channels(bytes: Vec<u8>) -> (rgba: Vec<u8>)
    ensures
        rgba@ == swapped(bytes@),
{
    let ghost before = bytes@;
    let len: usize = bytes.len();
    let mut rgba: Vec<u8> = bytes;
    let mut i: usize = 0;
    while len - i >= 4
        invariant
            i <= len,
            i % 4 == 0,
            rgba@.len() == len,
            before.len() == len,
            forall|j: int| 0 <= j < i ==> #[trigger] rgba@[j] == swapped(before)[j],
            forall|j: int| i <= j < len ==> #[trigger] rgba@[j] == before[j],
        decreases len - i,
    {
        let blue: u8 = rgba[i];
        let red: u8 = rgba[i + 2];
        rgba.set(i, red);
        rgba.set(i + 2, blue);
        proof {
            assert((i + 1) % 4 == 1 && (i + 2) % 4 == 2 && (i + 3) % 4 == 3);
            assert(swapped(before)[i as int] == before[i + 2]);
            assert(swapped(before)[i + 1] == before[i + 1]);
            assert(swapped(before)[i + 2] == before[i as int]);
            assert(swapped(before)[i + 3] == before[i + 3]);
        }
        i = i + 4;
    }
    assert forall|j: int| 0 <= j < len implies #[trigger] rgba@[j] == swapped(before)[j] by {
        if i <= j {
            assert(j - j % 4 + 4 > len);
        }
    }
    assert(rgba@ =~= swapped(before));
    rgba
}

/// Bytes that an image of the given size has.
pub open spec fn pixel_bytes(width: u32, height: u32) -> int {
    width * height * 4
}

/// What the PNG encoder of `image` makes of pixels, or what it says is wrong with them.
pub uninterp spec fn encoded_png(width: u32, height: u32, rgba: Seq<u8>) -> Result<Seq<u8>, Seq<char>>;

/// Calls `RgbaImage::from_raw`, which takes pixels of the right length, and
/// `DynamicImage::write_to` with PNG. What comes out is a function of the size and the
/// pixels alone and is not stated, but that a file begins with the signature of PNG.
#[verifier::external_body]
fn encode_png(width: u32, height: u32, rgba: Vec<u8>) -> (png: Result<Vec<u8>, String>)
    requires
        rgba@.len() == pixel_bytes(width, height),
    ensures
        match png {
            Ok(bytes) => encoded_png(width, height, rgba@) == Ok::<Seq<u8>, Seq<char>>(bytes@) && begins_with(
                bytes@,
                png_signature(),
            ),
            Err(error) => encoded_png(width, height, rgba@) == Err::<Seq<u8>, Seq<char>>(error@),
        },
{
    let pixels = image::RgbaImage::from_raw(width, height, rgba).unwrap();
    let mut png = Vec::new();
    image::DynamicImage::ImageRgba8(pixels)
        .write_to(&mut std::io::Cursor::new(&mut png), image::ImageFormat::Png)
        .map_err(|error| error.to_string())?;
    Ok(png)
}

/// What went wrong when an image was exported.
#[derive(Debug)]
pub enum ExportError {
    /// The pixels are not there, or too few.
    Unavailable,
    Encoder(String),
}

/// A side of an image, which is not below zero.
pub open spec fn side(length: i32) -> u32 {
    if length > 0 {
        length as u32
    } else {
        0
    }
}

/// An image that was drawn, as a file in PNG. Its pixels are stored blue first. Where there
/// are too few of them the image is not available; those beyond its size are not part of it,
/// and are kept from the encoder, which takes no more than the size asks for.
pub fn rendered_png(width: i32, height: i32, bgra: Option<Vec<u8>>) -> (png: Result<Vec<u8>, ExportError>)
    ensures
        match bgra {
            Some(bytes) if bytes@.len() >= pixel_bytes(side(width), side(height)) => match encoded_png(
                side(width),
                side(height),
                swapped(bytes@.take(pixel_bytes(side(width), side(height)))),
            ) {
                Ok(file) => png is Ok && png->Ok_0@ == file && begins_with(file, png_signature()),
                Err(error) => match png {
                    Err(ExportError::Encoder(text)) => text@ == error,
                    _ => false,
                },
            },
            _ => png == Err::<Vec<u8>, ExportError>(ExportError::Unavailable),
        },
{
    let w: u32 = if width > 0 {
        width as u32
    } else {
        0
    };
    let h: u32 = if height > 0 {
        height as u32
    } else {
        0
    };
    let mut bytes = match bgra {
        Some(bytes) => bytes,
        None => {
            return Err(ExportError::Unavailable);
        },
    };
    let ghost given = bytes@;
    assert(w * h <= 0xffff_ffff * 0xffff_ffff) by (nonlinear_arith)
        requires
            w <= 0xffff_ffffu32,
            h <= 0xffff_ffffu32,
    ;
    let needed: u128 = w as u128 * h as u128 * 4;
    if (bytes.len() as u128) < needed {
        return Err(ExportError::Unavailable);
    }
    bytes.truncate(needed as usize);
    assert(bytes@ =~= given.take(pixel_bytes(w, h)));
    let rgba = swap_channels(bytes);
    assert(rgba@.len() == pixel_bytes(w, h));
    match encode_png(w, h, rgba) {
        Ok(png) => Ok(png),
        Err(error) => Err(ExportError::Encoder(error)),
    }
}

/// The menu of an image. In the large view it lacks the entry that leads there.
pub open spec fn picture_menu(enlarge: bool) -> Seq<PictureAction> {
    (if enlarge {
        seq![PictureAction::Enlarge]
    } else {
        Seq::empty()
    }) + seq![PictureAction::OpenElsewhere, PictureAction::Copy, PictureAction::SaveAs]
}

/// The menu of an image.
pub fn actions_menu(enlarge: bool) -> (menu: Vec<PictureAction>)
    ensures
        menu@ == picture_menu(enlarge),
{
    let mut menu: Vec<PictureAction> = Vec::new();
    if enlarge {
        menu.push(PictureAction::Enlarge);
    }
    menu.push(PictureAction::OpenElsewhere);
    menu.push(PictureAction::Copy);
    menu.push(PictureAction::SaveAs);
    assert(menu@ =~= picture_menu(enlarge));
    menu
}

/// How an image gets to the clipboard under a window system.
pub fn clipboard_way(compositor: &str) -> (way: ClipboardWay)
    ensures
        way == (if compositor@ == "Wayland"@ {
            ClipboardWay::Helper
        } else {
            ClipboardWay::Native
        }),
{
    if crate::text::text_eq(compositor, "Wayland") {
        ClipboardWay::Helper
    } else {
        ClipboardWay::Native
    }
}

/// What a helper program that failed has to say: its own words, or its status.
pub fn helper_failure(stderr: &str, status: &str) -> (detail: String)
    ensures
        detail@ == (if trimmed(stderr@).len() == 0 {
            status@
        } else {
            trimmed(stderr@)
        }),
{
    let words = trim(stderr);
    if words.as_str().is_empty() {
        status.to_owned()
    } else {
        words
    }
}

/// The large view: the image that it shows.
#[derive(Debug)]
pub struct Lightbox {
    pub image: Option<u64>,
}

impl Lightbox {
    /// Shows an image; the one that was shown before is handed back to be let go of.
    pub fn open(&mut self, image: u64) -> (previous: Option<u64>)
        ensures
            final(self).image == Some(image),
            previous == old(self).image,
    {
        let previous = self.image;
        self.image = Some(image);
        previous
    }

    /// Closes the view; the image that was shown is handed back to be let go of.
    pub fn close(&mut self) -> (previous: Option<u64>)
        ensures
            final(self).image is None,
            previous == old(self).image,
    {
        let previous = self.image;
        self.image = None;
        previous
    }

    /// A key was pressed; reports whether the view closed.
    pub fn on_key(&mut self, key: &str) -> (closed: bool)
        ensures
            closed == (key@ == "escape"@),
            final(self).image == (if closed {
                None
            } else {
                old(self).image
            }),
    {
        if crate::text::text_eq(key, "escape") {
            self.image = None;
            true
        } else {
            false
        }
    }
}

/// Red and blue that change places twice are where they were.
pub proof fn law_channels_swap_back(bytes: Seq<u8>)
    ensures
        swapped(swapped(bytes)) == bytes,
{
    let once = swapped(bytes);
    assert forall|i: int| 0 <= i < bytes.len() implies #[trigger] swapped(once)[i] == bytes[i] by {
        if i - i % 4 + 4 <= bytes.len() {
            if i % 4 == 0 {
                assert((i + 2) % 4 == 2);
                assert(once[i + 2] == bytes[i]);
            } else if i % 4 == 2 {
                assert((i - 2) % 4 == 0);
                assert(once[i - 2] == bytes[i]);
            }
        }
    }
    assert(swapped(once) =~= bytes);
}

/// What is exported can be copied: it is recognized as PNG, unless its beginning reads as
/// text, which the first byte of the signature rules out.
pub proof fn law_exports_are_png(bytes: Seq<u8>)
    requires
        begins_with(bytes, png_signature()),
    ensures
        clipboard_format(bytes) == Some(PictureFormat::Png),
        mime_of(bytes) == "image/png"@,
{
    let prefix = looked_at(bytes);
    assert(bytes.take(8)[0] == 0x89u8);
    assert(prefix[0] == 0x89u8);
    assert(!valid_utf8(prefix)) by {
        assert(!vstd::utf8::is_leading_byte_width_1(0x89u8));
        assert(!vstd::utf8::is_leading_byte_width_2(0x89u8));
        assert(!vstd::utf8::is_leading_byte_width_3(0x89u8));
        assert(!vstd::utf8::is_leading_byte_width_4(0x89u8));
    }
}

} // verus!
