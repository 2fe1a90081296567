use recolor::color::Pixel;
use recolor::format::RecolorError;
use recolor::grid::ImageGrid;
use recolor::index::ColorGroup;
use recolor::session::{
    output_filename, Event, Request, Session, Stage, COLOR_PROMPT, DEFAULT_FILENAME,
    FILENAME_PROMPT,
};

fn dot(red: u8, green: u8, blue: u8, alpha: u8) -> Pixel {
    Pixel { red, green, blue, alpha }
}

fn small_grid() -> ImageGrid {
    let pixels = vec![dot(255, 0, 0, 255), dot(255, 0, 0, 255), dot(0, 255, 0, 255), dot(0, 0, 0, 0)];
    ImageGrid::from_pixels(2, 2, &pixels).unwrap()
}

fn line(text: &str) -> Event {
    Event::Line(text.to_string())
}

fn color_text(request: Request) -> String {
    match request {
        Request::Color(text) => text,
        other => panic!("a colour was to be asked for, not {:?}", other),
    }
}

fn saved_name(request: Request) -> String {
    match request {
        Request::Save(name) => name,
        other => panic!("the grid was to be saved, not {:?}", other),
    }
}

#[test]
fn session_replaces_red_and_keeps_green() {
    let mut session = Session::begin(small_grid());
    assert_eq!(
        session.groups(),
        &vec![
            ColorGroup { color: dot(255, 0, 0, 255), locations: vec![(0, 0), (1, 0)] },
            ColorGroup { color: dot(0, 255, 0, 255), locations: vec![(0, 1)] },
        ]
    );
    let first = color_text(session.request());
    assert_eq!(
        first,
        format!(
            "Color: #ff0000 \u{1b}[48;2;255;0;0m    \u{1b}[49m at locations: [(0, 0), (1, 0)]...\n{}",
            COLOR_PROMPT
        )
    );
    session.advance(line("#0000ff\n"));
    let second = color_text(session.request());
    assert_eq!(
        second,
        format!(
            "Color: #00ff00 \u{1b}[48;2;0;255;0m    \u{1b}[49m at locations: [(0, 1)]...\n{}",
            COLOR_PROMPT
        )
    );
    session.advance(line("\n"));
    match session.request() {
        Request::Filename(text) => assert_eq!(text, FILENAME_PROMPT),
        other => panic!("a file name was to be asked for, not {:?}", other),
    }
    session.advance(line("out.png\n"));
    assert_eq!(saved_name(session.request()), "out.png");
    assert_eq!(
        session.into_grid().to_pixels(),
        vec![dot(0, 0, 255, 255), dot(0, 0, 255, 255), dot(0, 255, 0, 255), dot(0, 0, 0, 0)]
    );
}

#[test]
fn session_never_offers_the_transparent_pixel() {
    let mut session = Session::begin(small_grid());
    let mut offered = 0;
    loop {
        match session.request() {
            Request::Color(text) => {
                assert!(!text.contains("(1, 1)"));
                assert!(!text.contains("#000000"));
                offered += 1;
                session.advance(line("#123456"));
            },
            Request::Filename(_) => break,
            other => panic!("unexpected request {:?}", other),
        }
    }
    assert_eq!(offered, 2);
    assert_eq!(session.grid().pixel(1, 1), Some(dot(0, 0, 0, 0)));
}

#[test]
fn empty_filename_gives_the_default() {
    let mut session = Session::begin(small_grid());
    session.advance(line(""));
    session.advance(line(""));
    session.advance(line(""));
    assert_eq!(saved_name(session.request()), "recolor_output.png");
    assert_eq!(DEFAULT_FILENAME, "recolor_output.png");
}

#[test]
fn output_filename_is_trimmed_or_default() {
    assert_eq!(output_filename(""), "recolor_output.png");
    assert_eq!(output_filename("\n"), "recolor_output.png");
    assert_eq!(output_filename("  \r\n"), "recolor_output.png");
    assert_eq!(output_filename("result.png\n"), "result.png");
    assert_eq!(output_filename("  my image.png \r\n"), "my image.png");
    assert_eq!(output_filename("bild-ä.png"), "bild-ä.png");
}

#[test]
fn keeping_every_color_leaves_the_grid_as_it_was() {
    let pixels = vec![
        dot(1, 2, 3, 4),
        dot(1, 2, 3, 4),
        dot(0, 0, 0, 0),
        dot(9, 9, 9, 255),
        dot(9, 9, 9, 254),
        dot(7, 7, 7, 0),
    ];
    let grid = ImageGrid::from_pixels(3, 2, &pixels).unwrap();
    let mut session = Session::begin(grid);
    let answers = ["", "\n", "not a color"];
    for answer in answers {
        match session.request() {
            Request::Color(_) => session.advance(line(answer)),
            other => panic!("unexpected request {:?}", other),
        }
    }
    match session.request() {
        Request::Filename(_) => {},
        other => panic!("unexpected request {:?}", other),
    }
    assert_eq!(session.grid().to_pixels(), pixels);
}

#[test]
fn malformed_input_keeps_the_color() {
    let mut session = Session::begin(small_grid());
    session.advance(line("#0000f\n"));
    assert_eq!(session.grid().pixel(0, 0), Some(dot(255, 0, 0, 255)));
    session.advance(line("0000ff00\n"));
    assert_eq!(session.grid().pixel(0, 1), Some(dot(0, 255, 0, 255)));
    match session.request() {
        Request::Filename(_) => {},
        other => panic!("unexpected request {:?}", other),
    }
}

#[test]
fn closed_input_fails_the_session() {
    let mut session = Session::begin(small_grid());
    session.advance(line("#0000ff"));
    session.advance(Event::Closed);
    match session.request() {
        Request::Abort(error) => assert_eq!(error, RecolorError::InputStreamFailure),
        other => panic!("unexpected request {:?}", other),
    }
    session.advance(line("#ffffff"));
    match session.request() {
        Request::Abort(error) => assert_eq!(error, RecolorError::InputStreamFailure),
        other => panic!("unexpected request {:?}", other),
    }
    assert_eq!(
        session.into_grid().to_pixels(),
        vec![dot(0, 0, 255, 255), dot(0, 0, 255, 255), dot(0, 255, 0, 255), dot(0, 0, 0, 0)]
    );
}

#[test]
fn closed_input_fails_the_filename_too() {
    let mut session = Session::begin(small_grid());
    session.advance(line(""));
    session.advance(line(""));
    session.advance(Event::Closed);
    match session.request() {
        Request::Abort(error) => assert_eq!(error, RecolorError::InputStreamFailure),
        other => panic!("unexpected request {:?}", other),
    }
}

#[test]
fn session_without_colors_asks_for_the_filename_at_once() {
    let blank = ImageGrid::from_pixels(2, 1, &vec![dot(1, 1, 1, 0), dot(2, 2, 2, 0)]).unwrap();
    let mut session = Session::begin(blank);
    assert!(session.groups().is_empty());
    match session.request() {
        Request::Filename(text) => assert_eq!(text, FILENAME_PROMPT),
        other => panic!("unexpected request {:?}", other),
    }
    session.advance(line("x.png"));
    assert_eq!(saved_name(session.request()), "x.png");
}

#[test]
fn finished_session_stays_as_it_is() {
    let mut session = Session::begin(small_grid());
    session.advance(line(""));
    session.advance(line(""));
    session.advance(line("a.png"));
    session.advance(line("b.png"));
    session.advance(Event::Closed);
    assert_eq!(saved_name(session.request()), "a.png");
}

#[test]
fn later_groups_are_those_of_the_grid_at_the_start() {
    let pixels = vec![dot(1, 1, 1, 255), dot(2, 2, 2, 255), dot(1, 1, 1, 255)];
    let grid = ImageGrid::from_pixels(3, 1, &pixels).unwrap();
    let mut session = Session::begin(grid);
    session.advance(line("#020202"));
    let second = color_text(session.request());
    assert!(second.starts_with("Color: #020202 "));
    assert!(second.contains(" at locations: [(1, 0)]..."));
    session.advance(line("#030303"));
    assert_eq!(
        session.grid().to_pixels(),
        vec![dot(2, 2, 2, 255), dot(3, 3, 3, 255), dot(2, 2, 2, 255)]
    );
}

#[test]
fn prompts_are_worded_as_documented() {
    assert_eq!(
        COLOR_PROMPT,
        "Enter new color for this color (in hex format, e.g. #ff00ff), or press Enter to keep the same color:"
    );
    assert_eq!(
        FILENAME_PROMPT,
        "Enter a filename for the recolored image: (default: recolor_output.png)"
    );
}

#[test]
fn session_goes_through_its_stages() {
    let mut session = Session::begin(small_grid());
    assert!(matches!(session.stage(), Stage::AwaitingColor));
    session.advance(line("#0000ff"));
    assert!(matches!(session.stage(), Stage::AwaitingColor));
    session.advance(line(""));
    assert!(matches!(session.stage(), Stage::AwaitingFilename));
    session.advance(line(" picture.png \n"));
    match session.stage() {
        Stage::Done(name) => assert_eq!(name, "picture.png"),
        other => panic!("the session was to be done, not {:?}", other),
    }
    let mut closed = Session::begin(small_grid());
    closed.advance(Event::Closed);
    match closed.stage() {
        Stage::Failed(error) => assert_eq!(*error, RecolorError::InputStreamFailure),
        other => panic!("the session was to have failed, not {:?}", other),
    }
    assert_eq!(
        closed.grid().to_pixels(),
        vec![dot(255, 0, 0, 255), dot(255, 0, 0, 255), dot(0, 255, 0, 255), dot(0, 0, 0, 0)]
    );
}
