//! The options of the tool call gallery program.
use vstd::prelude::*;
use vstd::string::StringExecFns;
use crate::scroll_profile::{debug_quoted, debug_string};
use crate::text::str_eq;

verus! {

/// Where the gallery's screenshot goes when no path is given.
pub const DEFAULT_SCREENSHOT: &'static str = "target/tool-render-gallery.png";

/// The options of the gallery: where to save a screenshot, if one is asked
/// for, and whether the window stays open after it.
pub struct GalleryOptions {
    pub screenshot: Option<String>,
    pub stay_open: bool,
}

/// The usage line of the gallery.
pub open spec fn gallery_usage_text() -> Seq<char> {
    "Usage: tool-render-gallery [--screenshot [PATH]] [--stay-open]"@
}

/// The usage line of the gallery.
pub fn usage() -> (r: &'static str)
    ensures
        r@ == gallery_usage_text(),
{
    "Usage: tool-render-gallery [--screenshot [PATH]] [--stay-open]"
}

/// Whether an argument is a flag: it starts with `-`.
pub open spec fn is_flag(arg: Seq<char>) -> bool {
    arg.len() > 0 && arg[0] == '-'
}

/// The options after reading `args[i..]` onto `screenshot` and `stay_open`:
/// `--screenshot` takes the next argument as its path unless it is a flag
/// or missing, when the default path is used; `--stay-open` keeps the
/// window open; `--help` or `-h` gives the usage, and any other argument an
/// error.
pub open spec fn gallery_args_from(
    args: Seq<Seq<char>>,
    i: int,
    screenshot: Option<Seq<char>>,
    stay_open: bool,
) -> Result<(Option<Seq<char>>, bool), Seq<char>>
    decreases args.len() - i,
{
    if i < 0 || i >= args.len() {
        Ok((screenshot, stay_open))
    } else {
        let arg = args[i];
        if arg == "--screenshot"@ {
            if i + 1 < args.len() && !is_flag(args[i + 1]) {
                gallery_args_from(args, i + 2, Some(args[i + 1]), stay_open)
            } else {
                gallery_args_from(args, i + 1, Some(DEFAULT_SCREENSHOT@), stay_open)
            }
        } else if arg == "--stay-open"@ {
            gallery_args_from(args, i + 1, screenshot, true)
        } else if arg == "--help"@ || arg == "-h"@ {
            Err(gallery_usage_text())
        } else {
            Err("unknown argument "@ + debug_quoted(arg) + "\n\n"@ + gallery_usage_text())
        }
    }
}

impl GalleryOptions {
    /// The options as values.
    pub open spec fn view(self) -> (Option<Seq<char>>, bool) {
        (
            match self.screenshot {
                Some(p) => Some(p@),
                None => None,
            },
            self.stay_open,
        )
    }

    /// Reads the options from the command-line arguments after the program
    /// name.
    pub fn parse(args: &Vec<String>) -> (r: Result<GalleryOptions, String>)
        ensures
            match r {
                Ok(o) => gallery_args_from(args.deep_view(), 0, None, false) == Ok::<
                    (Option<Seq<char>>, bool),
                    Seq<char>,
                >(o.view()),
                Err(e) => gallery_args_from(args.deep_view(), 0, None, false) == Err::<
                    (Option<Seq<char>>, bool),
                    Seq<char>,
                >(e@),
            },
    {
        let ghost all = args.deep_view();
        let mut options = GalleryOptions { screenshot: None, stay_open: false };
        let mut i: usize = 0;
        while i < args.len()
            invariant
                all == args.deep_view(),
                0 <= i <= args@.len(),
                gallery_args_from(all, 0, None, false) == gallery_args_from(
                    all,
                    i as int,
                    options.view().0,
                    options.view().1,
                ),
            decreases args@.len() - i,
        {
            let arg = args[i].as_str();
            assert(all[i as int] == arg@);
            if str_eq(arg, "--screenshot") {
                let takes_next = if i + 1 < args.len() {
                    let next = args[i + 1].as_str();
                    assert(all[i + 1] == next@);
                    next.is_empty() || !starts_with_dash(next)
                } else {
                    false
                };
                if takes_next {
                    options.screenshot = Some(args[i + 1].clone());
                    i = i + 2;
                } else {
                    options.screenshot = Some(String::from_str(DEFAULT_SCREENSHOT));
                    i = i + 1;
                }
            } else if str_eq(arg, "--stay-open") {
                options.stay_open = true;
                i = i + 1;
            } else if str_eq(arg, "--help") || str_eq(arg, "-h") {
                return Err(String::from_str(usage()));
            } else {
                let mut e = String::from_str("unknown argument ");
                e.append(debug_string(arg).as_str());
                e.append("\n\n");
                e.append(usage());
                return Err(e);
            }
        }
        Ok(options)
    }
}

fn starts_with_dash(s: &str) -> (r: bool)
    requires
        s@.len() > 0,
    ensures
        r == (s@[0] == '-'),
{
    s.get_char(0) == '-'
}

} // verus!
