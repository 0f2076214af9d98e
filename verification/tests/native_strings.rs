use cageforge_windows::native_strings::{
    known_folder_path, local_sid_string, local_wide_string_with_length, net_api_array_len,
    read_terminated, wide, wide_string_with_length, wide_string_within_allocation, E_INVALIDARG,
};

fn memory(units: &[u16]) -> Vec<u8> {
    units.iter().flat_map(|unit| unit.to_le_bytes()).collect()
}

#[test]
fn wide_string_is_bounded_by_the_netapi_allocation() {
    let value = [b'a' as u16, b'b' as u16, 0, b'x' as u16];
    let start = value.as_ptr() as usize;

    assert_eq!(
        wide_string_within_allocation(start, &memory(&value), start),
        Some("ab".to_string())
    );
}

#[test]
fn unterminated_or_invalid_netapi_strings_fail_closed() {
    let unterminated = [b'a' as u16, b'b' as u16];
    let invalid_utf16 = [0xd800, 0];

    assert_eq!(
        wide_string_within_allocation(4096, &memory(&unterminated), 4096),
        None
    );
    assert_eq!(
        wide_string_within_allocation(4096, &memory(&invalid_utf16), 4096),
        None
    );
}

#[test]
fn pointer_outside_netapi_allocation_is_rejected() {
    let value = [b'a' as u16, 0];

    assert_eq!(
        wide_string_within_allocation(4096, &memory(&value), 4096 + 2 * value.len()),
        None
    );
}

#[test]
fn array_count_must_fit_the_netapi_allocation() {
    assert_eq!(net_api_array_len::<u32>(8, 2), Some(2));
    assert_eq!(net_api_array_len::<u32>(7, 2), None);
    assert_eq!(net_api_array_len::<[u8; 8]>(7, 1), None);
}

#[test]
fn misplaced_pointers_are_rejected() {
    let value = memory(&[b'a' as u16, b'b' as u16, 0]);
    assert_eq!(wide_string_within_allocation(4096, &value, 4098), Some("b".to_string()));
    assert_eq!(wide_string_within_allocation(4096, &value, 4097), None);
    assert_eq!(wide_string_within_allocation(4097, &value, 4098), None);
    assert_eq!(wide_string_within_allocation(4096, &value, 4094), None);
    assert_eq!(wide_string_within_allocation(usize::MAX - 1, &value, usize::MAX - 1), None);
    assert_eq!(wide_string_within_allocation(4096, &vec![0], 4096), None);
}

#[test]
fn texts_are_widened_with_a_zero() {
    assert_eq!(wide("ab"), vec![97, 98, 0]);
    assert_eq!(wide(""), vec![0]);
    assert_eq!(wide("\u{1f600}"), vec![0xd83d, 0xde00, 0]);
}

#[test]
fn terminated_texts_are_read_back() {
    let mut units = wide("S-1-5-21");
    units.extend([5, 6]);
    assert_eq!(read_terminated(&units), Some("S-1-5-21".to_string()));
    assert_eq!(read_terminated(&[]), None);
}

#[test]
fn sid_strings_are_bounded() {
    let units = wide("S-1-5-18");
    assert_eq!(
        local_sid_string(units.len() * 2, &units),
        Some("S-1-5-18".to_string())
    );
    assert_eq!(local_sid_string(0, &[]), None);
    assert_eq!(local_sid_string(3, &units), None);
    assert_eq!(local_sid_string(546, &units), None);
}

#[test]
fn counted_texts_lose_one_zero_at_their_end() {
    assert_eq!(
        wide_string_with_length(Some(vec![97, 0, 0])),
        Some("a\0".to_string())
    );
    assert_eq!(
        wide_string_with_length(Some(vec![97, 0xd800])),
        Some("a\u{fffd}".to_string())
    );
    assert_eq!(wide_string_with_length(Some(vec![])), None);
    assert_eq!(wide_string_with_length(None), None);
    assert_eq!(
        local_wide_string_with_length(8, 3, Some(vec![97, 98, 0])),
        Some("ab".to_string())
    );
    assert_eq!(local_wide_string_with_length(4, 3, Some(vec![97, 98, 0])), None);
    assert_eq!(local_wide_string_with_length(7, 3, Some(vec![97, 98, 0])), None);
    assert_eq!(local_wide_string_with_length(8, 0, Some(vec![])), None);
    assert_eq!(local_wide_string_with_length(8, 3, None), None);
}

#[test]
fn known_folders_need_a_terminated_path() {
    assert_eq!(known_folder_path(0, Some(vec![67, 58, 0, 9])), Ok(vec![67, 58]));
    assert_eq!(known_folder_path(0, Some(vec![67, 58])), Err(E_INVALIDARG));
    assert_eq!(known_folder_path(-5, Some(vec![67, 0])), Err(-5));
    assert_eq!(known_folder_path(0, None), Err(0));
    assert_eq!(E_INVALIDARG as u32, 0x8007_0057);
}
