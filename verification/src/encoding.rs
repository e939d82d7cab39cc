use vstd::prelude::*;

verus! {

/// The lower-case hexadecimal digits.
pub open spec fn hex_digits() -> Seq<char> {
    seq!['0', '1', '2', '3', '4', '5', '6', '7', '8', '9', 'a', 'b', 'c', 'd', 'e', 'f']
}

/// Lower-case hexadecimal text of a byte string: two digits per byte, high nibble first.
pub open spec fn hex_lower(data: Seq<u8>) -> Seq<char>
    decreases data.len(),
{
    if data.len() == 0 {
        Seq::empty()
    } else {
        seq![hex_digits()[(data[0] / 16) as int], hex_digits()[(data[0] % 16) as int]] + hex_lower(
            data.subrange(1, data.len() as int),
        )
    }
}

/// The hyphenated lower-case text of a UUID: the hexadecimal text of its 16 bytes in
/// groups of 4, 2, 2, 2 and 6 bytes joined by `-`.
pub open spec fn uuid_text(b: Seq<u8>) -> Seq<char> {
    hex_lower(b.subrange(0, 4)) + seq!['-'] + hex_lower(b.subrange(4, 6)) + seq!['-'] + hex_lower(
        b.subrange(6, 8),
    ) + seq!['-'] + hex_lower(b.subrange(8, 10)) + seq!['-'] + hex_lower(b.subrange(10, 16))
}

/// The Base64 alphabet of RFC 4648, section 4.
pub open spec fn base64_alphabet() -> Seq<char> {
    seq![
        'A', 'B', 'C', 'D', 'E', 'F', 'G', 'H', 'I', 'J', 'K', 'L', 'M', 'N', 'O', 'P',
        'Q', 'R', 'S', 'T', 'U', 'V', 'W', 'X', 'Y', 'Z', 'a', 'b', 'c', 'd', 'e', 'f',
        'g', 'h', 'i', 'j', 'k', 'l', 'm', 'n', 'o', 'p', 'q', 'r', 's', 't', 'u', 'v',
        'w', 'x', 'y', 'z', '0', '1', '2', '3', '4', '5', '6', '7', '8', '9', '+', '/',
    ]
}

/// The standard padded Base64 text (RFC 4648, section 4) of a byte string: each group of
/// three bytes becomes four characters of six bits each; a last group of one or two
/// bytes is padded with `=` to four characters.
pub open spec fn base64_standard(data: Seq<u8>) -> Seq<char>
    decreases data.len(),
{
    let a = base64_alphabet();
    if data.len() == 0 {
        Seq::empty()
    } else if data.len() == 1 {
        seq![a[data[0] as int / 4], a[(data[0] as int % 4) * 16], '=', '=']
    } else if data.len() == 2 {
        seq![
            a[data[0] as int / 4],
            a[(data[0] as int % 4) * 16 + data[1] as int / 16],
            a[(data[1] as int % 16) * 4],
            '=',
        ]
    } else {
        seq![
            a[data[0] as int / 4],
            a[(data[0] as int % 4) * 16 + data[1] as int / 16],
            a[(data[1] as int % 16) * 4 + data[2] as int / 64],
            a[data[2] as int % 64],
        ] + base64_standard(data.subrange(3, data.len() as int))
    }
}

/// The SHA-256 digest of a byte string.
pub uninterp spec fn sha256(data: Seq<u8>) -> Seq<u8>;

/// `data_encoding::HEXLOWER.encode`: lower-case hexadecimal, two digits per byte, as the
/// crate documents it. The crate asserts that the input is at most `usize::MAX / 512`
/// bytes long.
#[verifier::external_body]
pub(crate) fn hex_lower_encode(data: &[u8]) -> (res: String)
    requires
        data@.len() <= usize::MAX / 512,
    ensures
        res@ == hex_lower(data@),
{
    data_encoding::HEXLOWER.encode(data)
}

/// `data_encoding::BASE64.encode`: the standard padded Base64 text of the input, as
/// RFC 4648 defines it and the crate documents it. The crate asserts that the input is
/// at most `usize::MAX / 512` bytes long.
#[verifier::external_body]
pub(crate) fn base64_encode(data: &[u8]) -> (res: String)
    requires
        data@.len() <= usize::MAX / 512,
    ensures
        res@ == base64_standard(data@),
{
    data_encoding::BASE64.encode(data)
}

/// `sha2::Sha256::digest`: the 32-byte SHA-256 digest of the input, named.
#[verifier::external_body]
pub(crate) fn sha256_digest(data: &[u8]) -> (res: Vec<u8>)
    ensures
        res@ == sha256(data@),
        res@.len() == 32,
{
    <sha2::Sha256 as sha2::Digest>::digest(data).to_vec()
}

/// `uuid::Uuid::new_v4`: 16 random bytes, with the version nibble set to 4 and the
/// variant bits set to `10`. Nothing else is known of them.
#[verifier::external_body]
pub(crate) fn random_uuid() -> (res: [u8; 16])
    ensures
        res@[6] / 16 == 4,
        res@[8] / 64 == 2,
{
    uuid::Uuid::new_v4().into_bytes()
}

/// `uuid::Uuid`'s `Display`: the hyphenated lower-case form of the given bytes.
#[verifier::external_body]
pub(crate) fn uuid_to_string(bytes: &[u8; 16]) -> (res: String)
    ensures
        res@ == uuid_text(bytes@),
{
    uuid::Uuid::from_bytes(*bytes).to_string()
}

} // verus!
