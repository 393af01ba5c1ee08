use rawflash::descriptor::{
    get_device_info, get_device_size, inspect_device, read_string_field, read_u32_le, read_u64_le,
    QueryError, PROPERTY_BUFFER_LEN,
};
use rawflash::enumerate::{
    classify_find_next, physical_drive_path, volume_name, DriveScan, VolumeStep,
};

fn put_u32(buf: &mut [u8], at: usize, v: u32) {
    buf[at..at + 4].copy_from_slice(&v.to_le_bytes());
}

fn put_str(buf: &mut [u8], at: usize, s: &str) {
    buf[at..at + s.len()].copy_from_slice(s.as_bytes());
    buf[at + s.len()] = 0;
}

fn property_response(removable: bool) -> Vec<u8> {
    let mut buf = vec![0u8; PROPERTY_BUFFER_LEN];
    buf[10] = removable as u8;
    put_u32(&mut buf, 12, 64);
    put_u32(&mut buf, 16, 80);
    put_u32(&mut buf, 20, 0);
    put_u32(&mut buf, 24, 96);
    put_str(&mut buf, 64, "ACME");
    put_str(&mut buf, 80, "Flash Disk");
    put_str(&mut buf, 96, "SN-0042");
    buf
}

fn length_response(len: u64) -> Vec<u8> {
    len.to_le_bytes().to_vec()
}

#[test]
fn decodes_storage_descriptor() {
    let d = get_device_info(&property_response(true)).unwrap();
    assert_eq!(d.manufacturer, "ACME");
    assert_eq!(d.product_id, "Flash Disk");
    assert_eq!(d.serial_number, "SN-0042");
    assert_eq!(d.model, "");
    assert!(d.removable);
    assert_eq!(d.path, "");
    assert_eq!(d.size_bytes, 0);
}

#[test]
fn invalid_utf8_is_replaced() {
    let mut buf = property_response(false);
    buf[64] = 0xff;
    let d = get_device_info(&buf).unwrap();
    assert_eq!(d.manufacturer, "\u{fffd}CME");
    assert!(!d.removable);
}

#[test]
fn short_response_is_rejected() {
    assert_eq!(get_device_info(&vec![0u8; 27]).unwrap_err(), QueryError::ResponseTooShort);
    assert!(get_device_info(&vec![0u8; 28]).is_ok());
}

#[test]
fn offset_outside_response_is_rejected() {
    let mut buf = property_response(false);
    put_u32(&mut buf, 16, 5000);
    assert_eq!(get_device_info(&buf).unwrap_err(), QueryError::MalformedField);
}

#[test]
fn unterminated_string_is_rejected() {
    let mut buf = vec![b'x'; 40];
    put_u32(&mut buf, 12, 30);
    put_u32(&mut buf, 16, 0);
    put_u32(&mut buf, 20, 0);
    put_u32(&mut buf, 24, 0);
    assert_eq!(get_device_info(&buf).unwrap_err(), QueryError::MalformedField);
    assert_eq!(read_string_field(&buf, 30), None);
    buf[39] = 0;
    assert_eq!(read_string_field(&buf, 30), Some(vec![b'x'; 9]));
}

#[test]
fn reads_little_endian_integers() {
    let b = vec![0x78, 0x56, 0x34, 0x12, 0xff, 0, 0, 0x80];
    assert_eq!(read_u32_le(&b, 0), 0x1234_5678);
    assert_eq!(read_u64_le(&b, 0), 0x8000_00ff_1234_5678);
}

#[test]
fn size_sentinel_on_failure() {
    assert_eq!(get_device_size(&Ok(length_response(64_000_000_000))), 64_000_000_000);
    assert_eq!(get_device_size(&Err(1)), 0);
    assert_eq!(get_device_size(&Ok(vec![1, 2, 3])), 0);
}

#[test]
fn metadata_and_size_are_independent() {
    let d = inspect_device(String::from("X"), &Err(5), &Ok(length_response(512)));
    assert_eq!(d.size_bytes, 512);
    assert_eq!(d.product_id, "");
    assert!(!d.removable);
    let d = inspect_device(String::from("Y"), &Ok(property_response(true)), &Err(1));
    assert_eq!(d.size_bytes, 0);
    assert_eq!(d.product_id, "Flash Disk");
    assert!(d.removable);
    assert_eq!(d.path, "Y");
}

#[test]
fn drive_names() {
    assert_eq!(physical_drive_path(0), "\\\\.\\PhysicalDrive0");
    assert_eq!(physical_drive_path(12), "\\\\.\\PhysicalDrive12");
    assert_eq!(physical_drive_path(u32::MAX), "\\\\.\\PhysicalDrive4294967295");
}

#[test]
fn scan_of_three_drives() {
    let mut scan = DriveScan::new();
    let mut tried = Vec::new();
    while let Some(path) = scan.next_candidate() {
        tried.push(path);
        if tried.len() <= 3 {
            let length = if tried.len() == 2 { Err(1) } else { Ok(length_response(1 << 30)) };
            scan.record_opened(&Ok(property_response(tried.len() == 1)), &length);
        } else {
            scan.record_open_failed();
        }
    }
    assert_eq!(tried.len(), 4);
    assert_eq!(scan.drives.len(), 3);
    assert_eq!(scan.next_index, 3);
    for (i, d) in scan.drives.iter().enumerate() {
        assert_eq!(d.path, format!("\\\\.\\PhysicalDrive{}", i));
        assert_eq!(d.product_id, "Flash Disk");
    }
    assert!(scan.drives[0].removable);
    assert!(!scan.drives[1].removable);
    assert_eq!(scan.drives[0].size_bytes, 1 << 30);
    assert_eq!(scan.drives[1].size_bytes, 0);
    assert_eq!(scan.drives[2].size_bytes, 1 << 30);
}

#[test]
fn scan_with_no_drives() {
    let mut scan = DriveScan::new();
    assert_eq!(scan.next_candidate().unwrap(), "\\\\.\\PhysicalDrive0");
    scan.record_open_failed();
    assert!(scan.next_candidate().is_none());
    assert!(scan.drives.is_empty());
}

#[test]
fn find_next_outcomes() {
    assert_eq!(classify_find_next(Ok(())), VolumeStep::Next);
    assert_eq!(classify_find_next(Err(18)), VolumeStep::End);
    assert_eq!(classify_find_next(Err(5)), VolumeStep::Fault(5));
}

#[test]
fn volume_names_stop_at_zero() {
    let buf: Vec<u16> = "\\\\?\\Volume{ab}\\\0\0junk".encode_utf16().collect();
    let name = volume_name(&buf);
    assert_eq!(String::from_utf16(&name).unwrap(), "\\\\?\\Volume{ab}\\");
    assert_eq!(volume_name(&vec![1, 2]), vec![1, 2]);
    assert!(volume_name(&vec![0, 2]).is_empty());
}
