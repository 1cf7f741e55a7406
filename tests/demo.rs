use iced_gif::{App, Error, Frames, Message, RawFrame};

#[test]
fn title_names_the_program() {
    assert_eq!(App::empty().title(), "Iced Gif");
}

#[test]
fn update_keeps_loaded_frames() {
    let raw = vec![RawFrame { width: 1, height: 1, pixels: vec![0, 0, 0, 255], delay_numer: 50, delay_denom: 1 }];
    let frames = Frames::from_raw_frames(raw, 3).unwrap();
    let mut app = App::empty();
    app.update(Message::Loaded(Ok(frames)));
    assert_eq!(app.frames.as_ref().map(|f| f.identity()), Some(3));
    app.update(Message::Loaded(Err(Error::Malformed)));
    assert!(app.frames.is_none());
}
