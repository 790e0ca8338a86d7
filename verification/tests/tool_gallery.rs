use codex_gui::tool_gallery::{usage, GalleryOptions, DEFAULT_SCREENSHOT};

fn parse(args: &[&str]) -> Result<(Option<String>, bool), String> {
    let args: Vec<String> = args.iter().map(|a| a.to_string()).collect();
    GalleryOptions::parse(&args).map(|o| (o.screenshot, o.stay_open))
}

#[test]
fn gallery_options_default_to_no_screenshot_and_closing() {
    assert_eq!(parse(&[]), Ok((None, false)));
    assert_eq!(parse(&["--stay-open"]), Ok((None, true)));
}

#[test]
fn a_screenshot_path_is_taken_unless_a_flag_follows() {
    assert_eq!(parse(&["--screenshot"]), Ok((Some(DEFAULT_SCREENSHOT.to_string()), false)));
    assert_eq!(
        parse(&["--screenshot", "out.png", "--stay-open"]),
        Ok((Some("out.png".to_string()), true))
    );
    assert_eq!(
        parse(&["--screenshot", "--stay-open"]),
        Ok((Some("target/tool-render-gallery.png".to_string()), true))
    );
    assert_eq!(parse(&["--screenshot", ""]), Ok((Some(String::new()), false)));
}

#[test]
fn help_and_unknown_arguments_are_errors() {
    assert_eq!(parse(&["-h"]), Err(usage().to_string()));
    assert_eq!(parse(&["--stay-open", "--help"]), Err(usage().to_string()));
    assert_eq!(
        parse(&["--bogus"]),
        Err(format!("unknown argument \"--bogus\"\n\n{}", usage()))
    );
}
