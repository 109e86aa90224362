//! The files that make a downloaded puzzle a document of the reMarkable
//! library: their names, the `.metadata` and `.content` sidecars, and the
//! texts printed on the page; also a UUID-shaped name made from a clock
//! reading.

use image::ImageDecoder;
use vstd::prelude::*;
use crate::numbers::{
    decimal, is_digit, lemma_parse_decimal, parse_unsigned, hex_fixed, is_hex_digit, lemma_hex4_first, lemma_hex_fixed_injective,
    lemma_hex_fixed_len, pow16, push_decimal, push_hex,
};
use crate::text::{before_char, escape_quotes, escape_quotes_in, lemma_before_char_prefix};

verus! {

/// The multiplier that scrambles the last group of a document name.
pub const UUID_MIX: u128 = 6_364_136_223_846_793_005;

/// The five numbers of the name made from the clock reading `t` (in
/// nanoseconds): the low 32 bits, the next 16, the next 12, 14 bits from
/// bit 60 with the top bit set, and the low 48 bits of `t` times
/// `UUID_MIX` (wrapping).
pub open spec fn uuid_fields(t: u128) -> (u128, u128, u128, u128, u128) {
    (
        t & 0xffff_ffff,
        (t >> 32u128) & 0xffff,
        (t >> 48u128) & 0x0fff,
        0x8000 | ((t >> 60u128) & 0x3fff),
        t.wrapping_mul(UUID_MIX) & 0xffff_ffff_ffff,
    )
}

/// The name made from the clock reading `t`, shaped like a version-4 UUID:
/// `{:08x}-{:04x}-4{:03x}-{:04x}-{:012x}` of the five fields.
pub open spec fn uuid_text(t: u128) -> Seq<char> {
    let f = uuid_fields(t);
    hex_fixed(f.0 as nat, 8) + "-"@ + hex_fixed(f.1 as nat, 4) + "-4"@ + hex_fixed(f.2 as nat, 3)
        + "-"@ + hex_fixed(f.3 as nat, 4) + "-"@ + hex_fixed(f.4 as nat, 12)
}

/// How the `.metadata` sidecar begins, up to the last-modified time.
pub const METADATA_HEAD: &'static str = "{\"deleted\":false,\"lastModified\":\"";

/// The `.metadata` sidecar: a document named `title` (quotes escaped),
/// last modified at `ts` milliseconds.
pub open spec fn metadata_text(ts: u128, title: Seq<char>) -> Seq<char> {
    METADATA_HEAD@ + decimal(ts as nat)
        + "\",\"lastOpened\":\"\",\"lastOpenedPage\":0,\"metadatamodified\":false,\"modified\":false,\"parent\":\"\",\"pinned\":false,\"synced\":false,\"type\":\"DocumentType\",\"version\":1,\"visibleName\":\""@
        + escape_quotes(title) + "\"}"@
}

/// The `.content` sidecar of a one-page PDF document.
pub open spec fn content_text() -> Seq<char> {
    "{\"dummyDocument\":false,\"extraMetadata\":{},\"fileType\":\"pdf\",\"fontName\":\"\",\"lastOpenedPage\":0,\"legacyEpub\":false,\"lineHeight\":-1,\"margins\":180,\"pageCount\":1,\"pages\":[],\"redirectionPageMap\":[],\"sizeInBytes\":\"0\",\"tags\":[],\"textAlignment\":\"left\",\"textScale\":1,\"transform\":{}}"@
}

/// The footer printed under the puzzle, naming its source and number.
pub open spec fn footer_text(id: u32) -> Seq<char> {
    "nonograms.org  |  puzzle #"@ + decimal(id as nat)
}

/// The UUID-shaped name for the clock reading `t` (nanoseconds since the
/// Unix epoch).
pub fn uuid_from_nanos(t: u128) -> (r: String)
    ensures
        r@ == uuid_text(t),
{
    let mut s = String::new();
    push_hex(&mut s, t & 0xffff_ffff, 8);
    s.append("-");
    push_hex(&mut s, (t >> 32u128) & 0xffff, 4);
    s.append("-4");
    push_hex(&mut s, (t >> 48u128) & 0x0fff, 3);
    s.append("-");
    push_hex(&mut s, 0x8000 | ((t >> 60u128) & 0x3fff), 4);
    s.append("-");
    push_hex(&mut s, t.wrapping_mul(UUID_MIX) & 0xffff_ffff_ffff, 12);
    assert(s@ =~= uuid_text(t));
    s
}

/// The `.metadata` sidecar of a document titled `title`, modified at `ts`.
pub fn metadata_json(ts: u128, title: &str) -> (r: String)
    ensures
        r@ == metadata_text(ts, title@),
        r@.take(METADATA_HEAD@.len() as int) == METADATA_HEAD@,
        parse_unsigned(before_char(r@.skip(METADATA_HEAD@.len() as int), '"')) == Some(ts as nat),
{
    proof {
        lemma_metadata_timestamp(ts, title@);
    }
    let mut s = String::from_str(METADATA_HEAD);
    push_decimal(&mut s, ts);
    s.append(
        "\",\"lastOpened\":\"\",\"lastOpenedPage\":0,\"metadatamodified\":false,\"modified\":false,\"parent\":\"\",\"pinned\":false,\"synced\":false,\"type\":\"DocumentType\",\"version\":1,\"visibleName\":\"",
    );
    let name = escape_quotes_in(title);
    s.append(name.as_str());
    s.append("\"}");
    assert(s@ =~= metadata_text(ts, title@));
    s
}

/// The `.metadata` sidecar begins with `METADATA_HEAD`, and the
/// last-modified field that follows, read up to its closing quote, is the
/// decimal numeral of `ts`: every timestamp is written whole.
pub proof fn lemma_metadata_timestamp(ts: u128, title: Seq<char>)
    ensures
        metadata_text(ts, title).take(METADATA_HEAD@.len() as int) == METADATA_HEAD@,
        parse_unsigned(before_char(metadata_text(ts, title).skip(METADATA_HEAD@.len() as int), '"'))
            == Some(ts as nat),
{
    let head = METADATA_HEAD@;
    let d = decimal(ts as nat);
    let mid = "\",\"lastOpened\":\"\",\"lastOpenedPage\":0,\"metadatamodified\":false,\"modified\":false,\"parent\":\"\",\"pinned\":false,\"synced\":false,\"type\":\"DocumentType\",\"version\":1,\"visibleName\":\""@;
    reveal_strlit("\",\"lastOpened\":\"\",\"lastOpenedPage\":0,\"metadatamodified\":false,\"modified\":false,\"parent\":\"\",\"pinned\":false,\"synced\":false,\"type\":\"DocumentType\",\"version\":1,\"visibleName\":\"");
    let rest = mid + escape_quotes(title) + "\"}"@;
    let m = metadata_text(ts, title);
    assert(m =~= head + (d + rest));
    assert(m.take(head.len() as int) =~= head);
    assert(m.skip(head.len() as int) =~= d + rest);
    lemma_parse_decimal(ts as nat);
    assert forall|k: int| 0 <= k < d.len() implies d[k] != '"' by {
        assert(is_digit(d[k]));
    }
    assert(rest[0] == '"');
    lemma_before_char_prefix(d, rest, '"');
}

/// The `.content` sidecar.
pub fn content_json() -> (r: String)
    ensures
        r@ == content_text(),
{
    String::from_str(
        "{\"dummyDocument\":false,\"extraMetadata\":{},\"fileType\":\"pdf\",\"fontName\":\"\",\"lastOpenedPage\":0,\"legacyEpub\":false,\"lineHeight\":-1,\"margins\":180,\"pageCount\":1,\"pages\":[],\"redirectionPageMap\":[],\"sizeInBytes\":\"0\",\"tags\":[],\"textAlignment\":\"left\",\"textScale\":1,\"transform\":{}}",
    )
}

/// The footer of the page of puzzle `id`.
pub fn footer(id: u32) -> (r: String)
    ensures
        r@ == footer_text(id),
{
    let mut s = String::from_str("nonograms.org  |  puzzle #");
    push_decimal(&mut s, id as u128);
    s
}

/// What the `image` crate's PNG decoder reads as the width and height of a
/// PNG image, `None` when it refuses the bytes.
pub uninterp spec fn png_dimensions(bytes: Seq<u8>) -> Option<(u32, u32)>;

/// `PngDecoder::new` over the bytes, then `ImageDecoder::dimensions`; a
/// refusal comes back as its display text. Trusted to give
/// `png_dimensions(bytes)`, a function of the bytes alone; the error text is
/// not claimed.
#[verifier::external_body]
fn read_png_size(bytes: &[u8]) -> (r: Result<(u32, u32), String>)
    ensures
        r is Ok <==> png_dimensions(bytes@) is Some,
        r matches Ok(d) ==> png_dimensions(bytes@) == Some(d),
{
    let dec = image::codecs::png::PngDecoder::new(std::io::Cursor::new(bytes)).map_err(|e| e.to_string())?;
    Ok(dec.dimensions())
}

/// The width and height in pixels of the puzzle image, a PNG.
pub fn image_size(bytes: &[u8]) -> (r: Result<(u32, u32), String>)
    ensures
        r is Ok <==> png_dimensions(bytes@) is Some,
        r matches Ok(d) ==> png_dimensions(bytes@) == Some(d),
{
    read_png_size(bytes)
}

/// The stem of the files of puzzle `id` titled `title`:
/// `nonogram_<id>_<title>`.
pub open spec fn document_stem(id: u32, title: Seq<char>) -> Seq<char> {
    "nonogram_"@ + decimal(id as nat) + "_"@ + title
}

/// The names of the files that make up a document.
pub struct DocumentFiles {
    pub pdf: String,
    pub metadata: String,
    pub content: String,
    pub thumbnails_dir: String,
    pub thumbnail: String,
}

/// The files of the document of puzzle `id` titled `title`: the PDF
/// `nonogram_<id>_<title>.pdf`, its sidecars `.metadata` and `.content` and
/// the directory `.thumbnails` named after the same stem, and the preview
/// `0.png` in that directory.
pub fn document_files(id: u32, title: &str) -> (f: DocumentFiles)
    ensures
        f.pdf@ == "nonogram_"@ + decimal(id as nat) + "_"@ + title@ + ".pdf"@,
        f.metadata@ == document_stem(id, title@) + ".metadata"@,
        f.content@ == document_stem(id, title@) + ".content"@,
        f.thumbnails_dir@ == document_stem(id, title@) + ".thumbnails"@,
        f.thumbnail@ == "0.png"@,
{
    let mut stem = String::from_str("nonogram_");
    push_decimal(&mut stem, id as u128);
    stem.append("_");
    stem.append(title);
    let mut pdf = stem.clone();
    pdf.append(".pdf");
    let mut metadata = stem.clone();
    metadata.append(".metadata");
    let mut content = stem.clone();
    content.append(".content");
    let mut thumbnails_dir = stem.clone();
    thumbnails_dir.append(".thumbnails");
    DocumentFiles { pdf, metadata, content, thumbnails_dir, thumbnail: String::from_str("0.png") }
}

/// Each number of a document name fits the width it is written in, so the
/// fixed-width digits are its whole numeral.
pub proof fn lemma_uuid_fields_fit(t: u128)
    ensures
        uuid_fields(t).0 < 0x1_0000_0000,
        uuid_fields(t).1 < 0x1_0000,
        uuid_fields(t).2 < 0x1000,
        uuid_fields(t).3 < 0x1_0000,
        uuid_fields(t).4 < 0x1_0000_0000_0000,
{
    let m = t.wrapping_mul(UUID_MIX);
    assert(t & 0xffff_ffff < 0x1_0000_0000) by (bit_vector);
    assert((t >> 32u128) & 0xffff < 0x1_0000) by (bit_vector);
    assert((t >> 48u128) & 0x0fff < 0x1000) by (bit_vector);
    assert(0x8000 | ((t >> 60u128) & 0x3fff) < 0x1_0000) by (bit_vector);
    assert(m & 0xffff_ffff_ffff < 0x1_0000_0000_0000) by (bit_vector);
}

/// Where the first four groups of a name stand in it.
proof fn lemma_uuid_groups(t: u128)
    ensures
        uuid_text(t).subrange(0, 8) == hex_fixed(uuid_fields(t).0 as nat, 8),
        uuid_text(t).subrange(9, 13) == hex_fixed(uuid_fields(t).1 as nat, 4),
        uuid_text(t).subrange(15, 18) == hex_fixed(uuid_fields(t).2 as nat, 3),
        uuid_text(t).subrange(19, 23) == hex_fixed(uuid_fields(t).3 as nat, 4),
{
    let f = uuid_fields(t);
    lemma_hex_fixed_len(f.0 as nat, 8);
    lemma_hex_fixed_len(f.1 as nat, 4);
    lemma_hex_fixed_len(f.2 as nat, 3);
    lemma_hex_fixed_len(f.3 as nat, 4);
    lemma_hex_fixed_len(f.4 as nat, 12);
    let h0 = hex_fixed(f.0 as nat, 8);
    let h1 = hex_fixed(f.1 as nat, 4);
    let h2 = hex_fixed(f.2 as nat, 3);
    let h3 = hex_fixed(f.3 as nat, 4);
    let h4 = hex_fixed(f.4 as nat, 12);
    reveal_strlit("-");
    reveal_strlit("-4");
    let u = uuid_text(t);
    assert(u =~= h0 + "-"@ + h1 + "-4"@ + h2 + "-"@ + h3 + "-"@ + h4);
    assert(u.subrange(0, 8) =~= h0);
    assert(u.subrange(9, 13) =~= h1);
    assert(u.subrange(15, 18) =~= h2);
    assert(u.subrange(19, 23) =~= h3);
}

/// Two clock readings below `2^74` nanoseconds (over half a million
/// years) that differ give different names: the first four groups of the
/// name hold the low 74 bits of the reading.
pub proof fn lemma_uuid_injective(t1: u128, t2: u128)
    requires
        t1 < 0x400_0000_0000_0000_0000,
        t2 < 0x400_0000_0000_0000_0000,
        t1 != t2,
    ensures
        uuid_text(t1) != uuid_text(t2),
{
    if uuid_text(t1) == uuid_text(t2) {
        let f = uuid_fields(t1);
        let g = uuid_fields(t2);
        lemma_uuid_fields_fit(t1);
        lemma_uuid_fields_fit(t2);
        lemma_uuid_groups(t1);
        lemma_uuid_groups(t2);
        reveal_with_fuel(pow16, 9);
        assert(pow16(3) == 0x1000);
        assert(pow16(4) == 0x1_0000);
        assert(pow16(8) == 0x1_0000_0000);
        lemma_hex_fixed_injective(f.0 as nat, g.0 as nat, 8);
        lemma_hex_fixed_injective(f.1 as nat, g.1 as nat, 4);
        lemma_hex_fixed_injective(f.2 as nat, g.2 as nat, 3);
        lemma_hex_fixed_injective(f.3 as nat, g.3 as nat, 4);
        assert(t1 == t2) by (bit_vector)
            requires
                t1 & 0xffff_ffff == t2 & 0xffff_ffff,
                (t1 >> 32u128) & 0xffff == (t2 >> 32u128) & 0xffff,
                (t1 >> 48u128) & 0x0fff == (t2 >> 48u128) & 0x0fff,
                0x8000 | ((t1 >> 60u128) & 0x3fff) == 0x8000 | ((t2 >> 60u128) & 0x3fff),
                t1 < 0x400_0000_0000_0000_0000,
                t2 < 0x400_0000_0000_0000_0000,
        ;
    }
}

/// A document name is 36 characters long, shaped like a version-4 UUID:
/// dashes at 8, 13, 18 and 23, the version digit `4` at 14, a variant digit
/// among `8`, `9`, `a`, `b` at 19, and lowercase hexadecimal digits
/// everywhere else.
pub proof fn lemma_uuid_shape(t: u128)
    ensures
        uuid_text(t).len() == 36,
        uuid_text(t)[8] == '-',
        uuid_text(t)[13] == '-',
        uuid_text(t)[14] == '4',
        uuid_text(t)[18] == '-',
        uuid_text(t)[23] == '-',
        uuid_text(t)[19] == '8' || uuid_text(t)[19] == '9' || uuid_text(t)[19] == 'a'
            || uuid_text(t)[19] == 'b',
        forall|i: int|
            0 <= i < 36 && i != 8 && i != 13 && i != 14 && i != 18 && i != 23 ==> is_hex_digit(
                #[trigger] uuid_text(t)[i],
            ),
{
    let f = uuid_fields(t);
    lemma_hex_fixed_len(f.0 as nat, 8);
    lemma_hex_fixed_len(f.1 as nat, 4);
    lemma_hex_fixed_len(f.2 as nat, 3);
    lemma_hex_fixed_len(f.3 as nat, 4);
    lemma_hex_fixed_len(f.4 as nat, 12);
    let x = t >> 60u128;
    assert(0x8000 <= (0x8000 | (x & 0x3fff)) <= 0xbfff) by (bit_vector);
    lemma_hex4_first(f.3 as nat);
    let d = (f.3 as nat) / 4096;
    assert(8 <= d <= 11);
    let u = uuid_text(t);
    let h0 = hex_fixed(f.0 as nat, 8);
    let h1 = hex_fixed(f.1 as nat, 4);
    let h2 = hex_fixed(f.2 as nat, 3);
    let h3 = hex_fixed(f.3 as nat, 4);
    let h4 = hex_fixed(f.4 as nat, 12);
    reveal_strlit("-");
    reveal_strlit("-4");
    assert(u =~= h0 + "-"@ + h1 + "-4"@ + h2 + "-"@ + h3 + "-"@ + h4);
    assert forall|i: int|
        0 <= i < 36 && i != 8 && i != 13 && i != 14 && i != 18 && i != 23 implies is_hex_digit(
        #[trigger] u[i],
    ) by {
        if i < 8 {
            assert(u[i] == h0[i]);
        } else if i < 13 {
            assert(u[i] == h1[i - 9]);
        } else if i < 18 {
            assert(u[i] == h2[i - 15]);
        } else if i < 23 {
            assert(u[i] == h3[i - 19]);
        } else {
            assert(u[i] == h4[i - 24]);
        }
    }
    assert(u[19] == h3[0]);
}

} // verus!
