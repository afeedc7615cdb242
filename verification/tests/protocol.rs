use ledmatrix_widgets::protocol::{
    brightness_command, check_fw_command, commit_col_command, decode_fw_version, draw_bool_command,
    format_fw_version, frame_command, fw_version_text, set_col_command, sleep_command,
    wake_command, FirmwareVersion,
};

#[test]
fn frame_command_prefixes_sync_bytes() {
    assert_eq!(frame_command(0x01, &[5, 6, 7]), vec![0x32, 0xAC, 0x01, 5, 6, 7]);
    assert_eq!(frame_command(0x05, &[]), vec![0x32, 0xAC, 0x05]);
}

#[test]
fn fixed_commands_are_as_on_the_wire() {
    assert_eq!(wake_command(), vec![0x32, 0xAC, 0x03, 0]);
    assert_eq!(sleep_command(), vec![0x32, 0xAC, 0x03, 1]);
    assert_eq!(brightness_command(65), vec![0x32, 0xAC, 0x00, 65]);
    assert_eq!(commit_col_command(), vec![0x32, 0xAC, 0x08]);
    assert_eq!(check_fw_command(), vec![0x32, 0xAC, 0x20]);
}

#[test]
fn set_col_command_carries_index_and_values() {
    let mut arr = [0u8; 34];
    for (i, v) in arr.iter_mut().enumerate() {
        *v = (i * 3) as u8;
    }
    let out = set_col_command(4, arr);
    assert_eq!(out.len(), 38);
    assert_eq!(&out[..4], &[0x32, 0xAC, 0x07, 4]);
    assert_eq!(&out[4..], &arr[..]);
}

#[test]
fn draw_bool_command_carries_packed_frame() {
    let mut grid = [[false; 9]; 34];
    grid[0][0] = true;
    grid[33][8] = true;
    let out = draw_bool_command(grid);
    assert_eq!(out.len(), 42);
    assert_eq!(&out[..3], &[0x32, 0xAC, 0x06]);
    assert_eq!(out[3], 0x01);
    assert_eq!(out[41], 0x02);
    assert!(out[4..41].iter().all(|b| *b == 0));
}

#[test]
fn firmware_reply_decodes_nibbles() {
    assert_eq!(
        decode_fw_version(&[1, 0x23, 0]),
        Some(FirmwareVersion { major: 1, minor: 2, patch: 3, pre_release: false })
    );
}

#[test]
fn firmware_reply_pre_release_flag() {
    let v = decode_fw_version(&[0, 0xF1, 1, 9, 9]).unwrap();
    assert_eq!(v, FirmwareVersion { major: 0, minor: 15, patch: 1, pre_release: true });
    assert!(decode_fw_version(&[0, 0, 2]).unwrap().pre_release);
}

#[test]
fn firmware_reply_too_short_is_unknown() {
    assert_eq!(decode_fw_version(&[]), None);
    assert_eq!(decode_fw_version(&[0]), None);
    assert_eq!(decode_fw_version(&[1, 0x23]), None);
    assert_eq!(fw_version_text(&[1, 0x23]), "");
}

#[test]
fn firmware_version_text_is_formatted() {
    assert_eq!(fw_version_text(&[1, 0x23, 0]), "1.2.3 Pre Release: false");
    assert_eq!(fw_version_text(&[255, 0xFA, 1]), "255.15.10 Pre Release: true");
    assert_eq!(
        format_fw_version(FirmwareVersion { major: 100, minor: 0, patch: 9, pre_release: false }),
        "100.0.9 Pre Release: false"
    );
    assert_eq!(
        format_fw_version(FirmwareVersion { major: 42, minor: 10, patch: 0, pre_release: true }),
        "42.10.0 Pre Release: true"
    );
}
