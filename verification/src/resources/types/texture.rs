use vstd::prelude::*;

verus! {

/// What `bytes`, read as an image in the format that the extension of `path`
/// names and converted to 8-bit RGBA, decode to: its width, its height and its
/// pixel bytes, or, where they do not decode, the decoder's message.
pub uninterp spec fn decoded_rgba8(bytes: Seq<u8>, path: Seq<char>) -> Result<
    (u32, u32, Seq<u8>),
    Seq<char>,
>;

/// The eight bytes that open every PNG file.
pub open spec fn png_signature() -> Seq<u8> {
    seq![137u8, 80u8, 78u8, 71u8, 13u8, 10u8, 26u8, 10u8]
}

/// The big-endian number in the four bytes of `bytes` from `at` on.
pub open spec fn be_u32(bytes: Seq<u8>, at: int) -> int {
    bytes[at] * 16777216 + bytes[at + 1] * 65536 + bytes[at + 2] * 256 + bytes[at + 3]
}

/// `c` in lower case, where it is an ASCII letter.
pub open spec fn ascii_lower(c: char) -> char {
    if 'A' <= c <= 'Z' {
        ((c as u32) + 32) as char
    } else {
        c
    }
}

/// Whether `path` ends in the extension `.png`, in any case of its letters.
pub open spec fn names_png(path: Seq<char>) -> bool {
    &&& path.len() >= 4
    &&& path[path.len() - 4] == '.'
    &&& ascii_lower(path[path.len() - 3]) == 'p'
    &&& ascii_lower(path[path.len() - 2]) == 'n'
    &&& ascii_lower(path[path.len() - 1]) == 'g'
}

/// Picks the image format with `image::ImageFormat::from_path` and decodes
/// `bytes` in it with `image::load_from_memory_with_format`, then converts the
/// image with `to_rgba8`: what `image::open` does once the file is read. The
/// contract claims that the outcome depends on the bytes and the path alone:
/// what it returns, the width, height and pixel bytes or the error's message,
/// is what `decoded_rgba8` names for them. It claims two facts more. A decoded
/// image holds four bytes for each of its `width * height` pixels: the crate
/// decodes into a buffer of exactly the decoder's size and converts into a new
/// one of the same pixel count. And where the path names a PNG file, the image
/// was decoded by the PNG decoder, which refuses a file that does not start
/// with the PNG signature followed by the IHDR chunk, and whose size is the
/// width and height stored big-endian at bytes 16 and 20 of that chunk.
#[verifier::external_body]
fn decode_rgba8(bytes: &[u8], path: &str) -> (decoded: Result<(u32, u32, Vec<u8>), String>)
    ensures
        decoded matches Ok((width, height, rgba)) ==> rgba@.len() == 4 * width * height,
        decoded matches Ok((width, height, _)) ==> (names_png(path@) ==> {
            &&& bytes@.len() >= 24
            &&& bytes@.subrange(0, 8) == png_signature()
            &&& width == be_u32(bytes@, 16)
            &&& height == be_u32(bytes@, 20)
        }),
        match decoded {
            Ok((width, height, rgba)) => decoded_rgba8(bytes@, path@) == Ok::<
                (u32, u32, Seq<u8>),
                Seq<char>,
            >((width, height, rgba@)),
            Err(message) => decoded_rgba8(bytes@, path@) == Err::<(u32, u32, Seq<u8>), Seq<char>>(
                message@,
            ),
        },
{
    let format = match image::ImageFormat::from_path(path) {
        Ok(format) => format,
        Err(error) => return Err(error.to_string()),
    };
    match image::load_from_memory_with_format(bytes, format) {
        Ok(image) => {
            let rgba = image.to_rgba8();
            Ok((rgba.width(), rgba.height(), rgba.into_raw()))
        },
        Err(error) => Err(error.to_string()),
    }
}

/// A decoded image: `width * height` pixels, four bytes (RGBA) each.
#[derive(Debug, Clone)]
pub struct TextureAsset {
    pub width: u32,
    pub height: u32,
    pub rgba: Vec<u8>,
}

/// A borrowed view of a texture's pixels, as the renderer uploads them.
#[derive(Debug, Clone, Copy)]
pub struct TextureView<'a> {
    pub width: u32,
    pub height: u32,
    pub rgba: &'a [u8],
}

impl TextureAsset {
    /// Decodes the bytes of the image file at `path`, in the format that its
    /// extension names, into RGBA pixels; where they do not decode, the
    /// decoder's message says why.
    pub fn decode(bytes: &[u8], path: &str) -> (result: Result<TextureAsset, String>)
        ensures
            result matches Ok(texture) ==> texture.rgba@.len() == 4 * texture.width
                * texture.height,
            result matches Ok(texture) ==> (names_png(path@) ==> {
                &&& bytes@.len() >= 24
                &&& bytes@.subrange(0, 8) == png_signature()
                &&& texture.width == be_u32(bytes@, 16)
                &&& texture.height == be_u32(bytes@, 20)
            }),
            result is Ok <==> decoded_rgba8(bytes@, path@) is Ok,
            result matches Ok(texture) ==> decoded_rgba8(bytes@, path@) == Ok::<
                (u32, u32, Seq<u8>),
                Seq<char>,
            >((texture.width, texture.height, texture.rgba@)),
            result matches Err(message) ==> decoded_rgba8(bytes@, path@) == Err::<
                (u32, u32, Seq<u8>),
                Seq<char>,
            >(message@),
    {
        match decode_rgba8(bytes, path) {
            Ok((width, height, rgba)) => Ok(TextureAsset { width, height, rgba }),
            Err(message) => Err(message),
        }
    }

    pub fn as_view(&self) -> (view: TextureView<'_>)
        ensures
            view.width == self.width,
            view.height == self.height,
            view.rgba@ == self.rgba@,
    {
        TextureView { width: self.width, height: self.height, rgba: self.rgba.as_slice() }
    }
}

} // verus!
