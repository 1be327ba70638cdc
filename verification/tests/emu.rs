use ring_bcc::audio::{frames_available, frames_requested, MgbaStream, NUM_CHANNELS, SAMPLES, SAMPLE_RATE};
use ring_bcc::emu::{
    comm_active, header_code, identify, supported_titles, Game, BCC_US_CRC32, SCREEN_H, SCREEN_W,
};
use ring_bcc::icon::load_icon;
use ring_bcc::video::paint;

fn rom(code: &[u8; 4]) -> Vec<u8> {
    let mut rom = vec![0u8; 0x200];
    rom[0xac..0xb0].copy_from_slice(code);
    rom
}

#[test]
fn games_are_known_by_their_code() {
    assert!(identify(&rom(b"A89E")) == Some(Game::Us));
    assert!(identify(&rom(b"A89J")) == Some(Game::Jp));
    assert!(identify(&rom(b"A89P")).is_none());
    assert!(identify(&rom(b"B89E")).is_none());
    assert!(identify(&rom(b"A99E")).is_none());
    assert!(identify(&rom(b"A88E")).is_none());
    assert!(identify(&[]).is_none());
    assert!(identify(&rom(b"A89E")[..0xaf]).is_none());
    assert!(identify(&rom(b"A89E")[..0xb0]) == Some(Game::Us));
}

#[test]
fn codes_as_they_are_shown() {
    assert_eq!(header_code(&rom(b"A89E")), "A89E");
    assert_eq!(header_code(&rom(b"A\0 ~")), "A??~");
    assert_eq!(header_code(&[]), "none");
}

#[test]
fn what_is_known_of_the_games() {
    assert_eq!(Game::Us.code(), "A89E");
    assert_eq!(Game::Jp.code(), "A89J");
    assert_eq!(Game::Us.crc32(), BCC_US_CRC32);
    assert_eq!(Game::Us.crc32(), 0x26be44fd);
    assert_eq!(Game::Jp.crc32(), 0x9217fb18);
    assert_eq!(Game::Us.title(), "Mega Man Battle Chip Challenge");
    assert_eq!(Game::Jp.title(), "Rockman EXE Battle Chip GP");
    assert_eq!(Game::Us.offsets().rom.drv_a, 0x0804a4b0);
    assert_eq!(Game::Jp.offsets().rom.drv_a, 0x0804a1b8);
    assert_eq!(supported_titles(), "Battle Chip Challenge (US) / Battle Chip GP (JP)");
    assert_eq!((SCREEN_W, SCREEN_H), (240, 160));
}

#[test]
fn a_link_session_begins_at_the_connecting_screen() {
    assert!(!comm_active(0, 9));
    assert!(!comm_active(1, 3));
    assert!(comm_active(1, 4));
    assert!(comm_active(2, 0));
    assert!(comm_active(5, 0));
}

#[test]
fn pixels_are_widened() {
    let mut rgba = vec![7u8; 12];
    // White, pure green, and a half pixel that is left alone.
    paint(&mut rgba, &[0xff, 0x7f, 0xe0, 0x03, 0xff]);
    assert_eq!(rgba, vec![0xf8, 0xf8, 0xf8, 0xff, 0, 0xf8, 0, 0xff, 7, 7, 7, 7]);
    // The top bit means nothing.
    paint(&mut rgba, &[0x01, 0x84]);
    assert_eq!(rgba[..4], [8, 0, 8, 0xff]);
    // No more is written than there is room for.
    let mut small = vec![1u8; 6];
    paint(&mut small, &[0, 0, 0xff, 0x7f]);
    assert_eq!(small, vec![0, 0, 0, 0xff, 1, 1]);
}

#[test]
fn whole_frames_are_asked_for() {
    assert_eq!(frames_requested(1024), 512);
    assert_eq!(frames_requested(7), 3);
    assert_eq!(frames_requested(1), 0);
    assert_eq!(frames_requested(0), 0);
    assert_eq!(frames_requested(-4), 0);
    assert_eq!(frames_available(10, 4), 4);
    assert_eq!(frames_available(3, 4), 3);
    assert_eq!((NUM_CHANNELS, SAMPLE_RATE, SAMPLES), (2, 48000, 512));
}

#[test]
fn the_resampler_buffer_grows_by_powers_of_two() {
    let mut stream = MgbaStream::new();
    assert_eq!(stream.dest_capacity, 1024);
    assert_eq!(stream.fit(512), None);
    assert_eq!(stream.fit(513), Some(2048));
    assert_eq!(stream.dest_capacity, 2048);
    assert_eq!(stream.fit(1024), None);
    assert_eq!(stream.fit(1500), Some(4096));
    assert_eq!(stream.fit(4), None);
    assert_eq!(stream.dest_capacity, 4096);
    let mut small = MgbaStream { buf: Vec::new(), dest_capacity: 0 };
    assert_eq!(small.fit(3), Some(1024));
}

#[test]
fn what_is_filled_is_played_and_the_rest_is_silence() {
    let mut stream = MgbaStream::new();
    stream.reserve(4);
    assert_eq!(stream.buf, vec![[0, 0]; 4]);
    let samples = stream.linear_mut(3);
    assert_eq!(samples, &[0i16; 6]);
    samples.copy_from_slice(&[1, -2, 3, -4, 5, -6]);
    assert_eq!(stream.buf, vec![[1, -2], [3, -4], [5, -6], [0, 0]]);
    assert_eq!(stream.linear(4), &[1, -2, 3, -4, 5, -6, 0, 0]);
    stream.silence(1, 3);
    assert_eq!(stream.linear(3), &[1, -2, 0, 0, 0, 0]);
    stream.reserve(2);
    assert_eq!(stream.buf.len(), 4);
    stream.reserve(5);
    assert_eq!(stream.buf, vec![[1, -2], [0, 0], [0, 0], [0, 0], [0, 0]]);
}

#[test]
fn a_logo_is_read() {
    let pixels: Vec<u8> = vec![1, 2, 3, 255, 4, 5, 6, 0, 7, 8, 9, 128, 10, 11, 12, 64];
    let picture = image::RgbaImage::from_raw(4, 1, pixels.clone()).unwrap();
    let mut file = std::io::Cursor::new(Vec::new());
    picture.write_to(&mut file, image::ImageFormat::Png).unwrap();
    let icon = load_icon(&file.into_inner()).unwrap();
    assert_eq!((icon.width, icon.height), (4, 1));
    assert_eq!(icon.rgba, pixels);
}

#[test]
fn a_logo_without_opacity_is_opaque() {
    let picture = image::RgbImage::from_raw(1, 2, vec![9, 8, 7, 6, 5, 4]).unwrap();
    let mut file = std::io::Cursor::new(Vec::new());
    picture.write_to(&mut file, image::ImageFormat::Png).unwrap();
    let icon = load_icon(&file.into_inner()).unwrap();
    assert_eq!((icon.width, icon.height), (1, 2));
    assert_eq!(icon.rgba, vec![9, 8, 7, 255, 6, 5, 4, 255]);
}

#[test]
fn what_is_no_picture_is_no_logo() {
    assert!(load_icon(&[]).is_none());
    assert!(load_icon(b"not a picture at all").is_none());
}
