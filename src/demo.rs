//! State of a small program that loads one GIF and shows it.

use vstd::prelude::*;
use crate::frames::{Error, Frames};

verus! {

/// What reaches the program.
#[derive(Debug)]
pub enum Message {
    /// Loading the GIF finished, with its frames or the reason it failed.
    Loaded(Result<Frames, Error>),
}

/// The program's state: the frames, once they are loaded.
#[derive(Debug)]
pub struct App {
    pub frames: Option<Frames>,
}

impl App {
    /// A program that has loaded nothing yet.
    pub fn empty() -> (r: App)
        ensures
            r.frames is None,
    {
        App { frames: None }
    }

    /// The window title.
    pub fn title(&self) -> (r: String)
        ensures
            r@ == "Iced Gif"@,
    {
        let r = String::from_str("Iced Gif");
        proof {
            reveal_strlit("Iced Gif");
        }
        r
    }

    /// Keeps the frames of a load that succeeded; after a failed one there is
    /// nothing to show.
    pub fn update(&mut self, message: Message)
        ensures
            match message {
                Message::Loaded(Ok(f)) => final(self).frames == Some(f),
                Message::Loaded(Err(_)) => final(self).frames is None,
            },
    {
        match message {
            Message::Loaded(loaded) => {
                self.frames = match loaded {
                    Ok(f) => Some(f),
                    Err(_) => None,
                };
            },
        }
    }
}

} // verus!
