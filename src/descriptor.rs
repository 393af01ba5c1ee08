//! Device Inspector: decoding of the storage property and length responses
//! into a [`DeviceDescriptor`].
use vstd::prelude::*;

verus! {

/// Position of the removable-media flag in the storage device record.
pub const REMOVABLE_MEDIA_AT: usize = 10;

/// Position of the vendor id string offset in the storage device record.
pub const VENDOR_ID_AT: usize = 12;

/// Position of the product id string offset in the storage device record.
pub const PRODUCT_ID_AT: usize = 16;

/// Position of the product revision string offset in the storage device record.
pub const PRODUCT_REVISION_AT: usize = 20;

/// Position of the serial number string offset in the storage device record.
pub const SERIAL_NUMBER_AT: usize = 24;

/// Smallest response that holds every field read from the record.
pub const RECORD_HEADER_LEN: usize = 28;

/// Size of the response buffer handed to the property request.
pub const PROPERTY_BUFFER_LEN: usize = 1024;

/// Size of the length-information record.
pub const LENGTH_RECORD_LEN: usize = 8;

/// The little-endian 32-bit value stored at `i`.
pub open spec fn u32_le(b: Seq<u8>, i: int) -> nat {
    b[i] as nat + 256 * (b[i + 1] as nat) + 65536 * (b[i + 2] as nat) + 16777216 * (b[i + 3] as nat)
}

/// The little-endian 64-bit value stored at `i`.
pub open spec fn u64_le(b: Seq<u8>, i: int) -> nat {
    u32_le(b, i) + 4294967296 * u32_le(b, i + 4)
}

/// The bytes from `i` up to (not including) the first zero byte, or up to
/// the end of `b` when no zero byte follows.
pub open spec fn c_string(b: Seq<u8>, i: int) -> Seq<u8>
    decreases b.len() - i,
{
    if i < 0 || i >= b.len() || b[i] == 0 {
        Seq::empty()
    } else {
        seq![b[i]] + c_string(b, i + 1)
    }
}

/// A zero byte stands at `i` or after it, inside `b`.
pub open spec fn terminated(b: Seq<u8>, i: int) -> bool
    decreases b.len() - i,
{
    if i < 0 || i >= b.len() {
        false
    } else {
        b[i] == 0 || terminated(b, i + 1)
    }
}

/// The string field found through `offset`: empty for offset 0, the
/// zero-terminated bytes there otherwise, and `None` when the offset points
/// outside the response or the string runs past its end.
pub open spec fn string_field(b: Seq<u8>, offset: nat) -> Option<Seq<u8>> {
    if offset == 0 {
        Some(Seq::empty())
    } else if terminated(b, offset as int) {
        Some(c_string(b, offset as int))
    } else {
        None
    }
}

/// The string field whose offset is stored at `at`.
pub open spec fn field_at(b: Seq<u8>, at: int) -> Option<Seq<u8>> {
    string_field(b, u32_le(b, at))
}

/// Every string field of the record can be read.
pub open spec fn fields_readable(b: Seq<u8>) -> bool {
    &&& field_at(b, SERIAL_NUMBER_AT as int).is_some()
    &&& field_at(b, PRODUCT_ID_AT as int).is_some()
    &&& field_at(b, PRODUCT_REVISION_AT as int).is_some()
    &&& field_at(b, VENDOR_ID_AT as int).is_some()
}

/// The text that lossy UTF-8 decoding makes of some bytes.
pub uninterp spec fn lossy_text(b: Seq<u8>) -> Seq<char>;

/// Relies on `String::from_utf8_lossy`: the text depends on the bytes alone,
/// and no bytes give the empty string.
#[verifier::external_body]
fn text_from_bytes(b: &Vec<u8>) -> (r: String)
    ensures
        r@ == lossy_text(b@),
        b@.len() == 0 ==> r@.len() == 0,
{
    String::from_utf8_lossy(b.as_slice()).into_owned()
}

/// Why a metadata response could not be used.
#[derive(Debug, Clone, Copy, PartialEq, Eq, Structural)]
pub enum QueryError {
    /// The control request failed, with this platform error code.
    RequestFailed(u32),
    /// The response is shorter than the record it should hold.
    ResponseTooShort,
    /// A string offset points outside the response, or its string is not
    /// terminated inside it.
    MalformedField,
}

/// Metadata of one storage device.
#[derive(Debug, Clone)]
pub struct DeviceDescriptor {
    pub path: String,
    pub serial_number: String,
    pub product_id: String,
    pub model: String,
    pub manufacturer: String,
    pub removable: bool,
    /// Total size in bytes; 0 means the size is unknown.
    pub size_bytes: u64,
}

/// Reads the little-endian 32-bit value stored at `i`.
pub fn read_u32_le(b: &Vec<u8>, i: usize) -> (r: u32)
    requires
        i + 4 <= b@.len(),
    ensures
        r as nat == u32_le(b@, i as int),
{
    let _n: usize = b.len();
    let (b0, b1, b2, b3) = (b[i], b[i + 1], b[i + 2], b[i + 3]);
    let r: u32 = b0 as u32 | (b1 as u32) << 8u32 | (b2 as u32) << 16u32 | (b3 as u32) << 24u32;
    assert((b0 as u32 | (b1 as u32) << 8u32 | (b2 as u32) << 16u32 | (b3 as u32) << 24u32) as nat
        == b0 as nat + 256 * (b1 as nat) + 65536 * (b2 as nat) + 16777216 * (b3 as nat))
        by (bit_vector);
    r
}

/// Reads the little-endian 64-bit value stored at `i`.
pub fn read_u64_le(b: &Vec<u8>, i: usize) -> (r: u64)
    requires
        i + 8 <= b@.len(),
    ensures
        r as nat == u64_le(b@, i as int),
{
    let _n: usize = b.len();
    let lo: u32 = read_u32_le(b, i);
    let hi: u32 = read_u32_le(b, i + 4);
    let r: u64 = (hi as u64) << 32u64 | lo as u64;
    assert(((hi as u64) << 32u64 | lo as u64) as nat == lo as nat + 4294967296 * (hi as nat))
        by (bit_vector);
    r
}

/// Copies out the string field found through `offset` (see [`string_field`]).
pub fn read_string_field(b: &Vec<u8>, offset: u32) -> (r: Option<Vec<u8>>)
    ensures
        match r {
            Some(v) => string_field(b@, offset as nat) == Some(v@),
            None => string_field(b@, offset as nat) is None,
        },
{
    let mut out: Vec<u8> = Vec::new();
    if offset == 0 {
        return Some(out);
    }
    let n: usize = b.len();
    let start: usize = offset as usize;
    let mut i: usize = start;
    while i < n
        invariant
            n == b@.len(),
            start == offset as int,
            offset != 0,
            start <= i,
            i <= n || i == start,
            c_string(b@, start as int) == out@ + c_string(b@, i as int),
            terminated(b@, start as int) == terminated(b@, i as int),
        decreases n - i,
    {
        if b[i] == 0 {
            assert(terminated(b@, i as int));
            assert(out@ + c_string(b@, i as int) =~= out@);
            return Some(out);
        }
        let ghost before = out@;
        out.push(b[i]);
        assert(before + c_string(b@, i as int) =~= out@ + c_string(b@, i + 1));
        i = i + 1;
    }
    None
}

/// Reads the string field whose offset is stored at `at`, as text.
fn read_text_field(b: &Vec<u8>, at: usize) -> (r: Option<String>)
    requires
        at + 4 <= b@.len(),
    ensures
        match r {
            Some(s) => field_at(b@, at as int) is Some && s@ == lossy_text(
                field_at(b@, at as int).unwrap(),
            ),
            None => field_at(b@, at as int) is None,
        },
{
    let offset: u32 = read_u32_le(b, at);
    match read_string_field(b, offset) {
        Some(v) => Some(text_from_bytes(&v)),
        None => None,
    }
}

/// `d` holds the metadata that the storage device record `b` describes, with
/// no path and an unknown size.
pub open spec fn decoded_from(d: DeviceDescriptor, b: Seq<u8>) -> bool {
    &&& d.path@ == Seq::<char>::empty()
    &&& d.serial_number@ == lossy_text(field_at(b, SERIAL_NUMBER_AT as int).unwrap())
    &&& d.product_id@ == lossy_text(field_at(b, PRODUCT_ID_AT as int).unwrap())
    &&& d.model@ == lossy_text(field_at(b, PRODUCT_REVISION_AT as int).unwrap())
    &&& d.manufacturer@ == lossy_text(field_at(b, VENDOR_ID_AT as int).unwrap())
    &&& d.removable == (b[REMOVABLE_MEDIA_AT as int] != 0)
    &&& d.size_bytes == 0
}

/// The error that decoding the storage device record `b` gives, if any.
pub open spec fn record_error(b: Seq<u8>) -> Option<QueryError> {
    if b.len() < RECORD_HEADER_LEN {
        Some(QueryError::ResponseTooShort)
    } else if !fields_readable(b) {
        Some(QueryError::MalformedField)
    } else {
        None
    }
}

/// Decodes the response of a storage property request into a descriptor:
/// each string field is copied out of the response, and the removable-media
/// flag is read from its fixed position. Path and size are left unset.
pub fn get_device_info(response: &Vec<u8>) -> (r: Result<DeviceDescriptor, QueryError>)
    ensures
        match r {
            Ok(d) => record_error(response@) is None && decoded_from(d, response@),
            Err(e) => record_error(response@) == Some(e),
        },
{
    if response.len() < RECORD_HEADER_LEN {
        return Err(QueryError::ResponseTooShort);
    }
    let serial_number = read_text_field(response, SERIAL_NUMBER_AT);
    let product_id = read_text_field(response, PRODUCT_ID_AT);
    let model = read_text_field(response, PRODUCT_REVISION_AT);
    let manufacturer = read_text_field(response, VENDOR_ID_AT);
    match (serial_number, product_id, model, manufacturer) {
        (Some(serial_number), Some(product_id), Some(model), Some(manufacturer)) => {
            Ok(DeviceDescriptor {
                path: String::new(),
                serial_number,
                product_id,
                model,
                manufacturer,
                removable: response[REMOVABLE_MEDIA_AT] != 0,
                size_bytes: 0,
            })
        },
        _ => Err(QueryError::MalformedField),
    }
}

/// The size that a length request's outcome gives: the recorded length when
/// the request succeeded with a full record, 0 (unknown) otherwise.
pub open spec fn size_from(length: Result<Seq<u8>, u32>) -> nat {
    match length {
        Ok(b) => if b.len() >= LENGTH_RECORD_LEN {
            u64_le(b, 0)
        } else {
            0
        },
        Err(_) => 0,
    }
}

/// The view of a request's outcome.
pub open spec fn response_view(r: Result<Vec<u8>, u32>) -> Result<Seq<u8>, u32> {
    match r {
        Ok(b) => Ok(b@),
        Err(e) => Err(e),
    }
}

/// Decodes the outcome of a length request; a failed request or a short
/// record gives 0, which stands for an unknown size.
pub fn get_device_size(length: &Result<Vec<u8>, u32>) -> (r: u64)
    ensures
        r as nat == size_from(response_view(*length)),
{
    match length {
        Ok(b) => if b.len() >= LENGTH_RECORD_LEN {
            read_u64_le(b, 0)
        } else {
            0
        },
        Err(_) => 0,
    }
}

/// `d` describes the device at `path`: metadata from the property outcome
/// where it decodes (empty strings and not removable where it does not), and
/// the size from the length outcome, each independently of the other.
pub open spec fn inspected(
    d: DeviceDescriptor,
    path: Seq<char>,
    property: Result<Seq<u8>, u32>,
    length: Result<Seq<u8>, u32>,
) -> bool {
    &&& d.path@ == path
    &&& d.size_bytes as nat == size_from(length)
    &&& match property {
        Ok(b) if record_error(b) is None => {
            &&& d.serial_number@ == lossy_text(field_at(b, SERIAL_NUMBER_AT as int).unwrap())
            &&& d.product_id@ == lossy_text(field_at(b, PRODUCT_ID_AT as int).unwrap())
            &&& d.model@ == lossy_text(field_at(b, PRODUCT_REVISION_AT as int).unwrap())
            &&& d.manufacturer@ == lossy_text(field_at(b, VENDOR_ID_AT as int).unwrap())
            &&& d.removable == (b[REMOVABLE_MEDIA_AT as int] != 0)
        },
        _ => {
            &&& d.serial_number@ == Seq::<char>::empty()
            &&& d.product_id@ == Seq::<char>::empty()
            &&& d.model@ == Seq::<char>::empty()
            &&& d.manufacturer@ == Seq::<char>::empty()
            &&& !d.removable
        },
    }
}

/// Builds the descriptor of the device at `path` from the outcomes of its
/// property and length requests. A failed or undecodable property response
/// leaves the metadata at its sentinels and a failed length request leaves
/// the size at 0; neither hides the other.
pub fn inspect_device(
    path: String,
    property: &Result<Vec<u8>, u32>,
    length: &Result<Vec<u8>, u32>,
) -> (r: DeviceDescriptor)
    ensures
        inspected(r, path@, response_view(*property), response_view(*length)),
{
    let size_bytes: u64 = get_device_size(length);
    let decoded = match property {
        Ok(b) => get_device_info(b),
        Err(code) => Err(QueryError::RequestFailed(*code)),
    };
    match decoded {
        Ok(d) => DeviceDescriptor { path, size_bytes, ..d },
        Err(_) => DeviceDescriptor {
            path,
            serial_number: String::new(),
            product_id: String::new(),
            model: String::new(),
            manufacturer: String::new(),
            removable: false,
            size_bytes,
        },
    }
}

} // verus!
