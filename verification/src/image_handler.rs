//! Output-side decisions: where a generated image is saved and which
//! terminal graphics protocol a preview should use. The filesystem writes
//! and the rendering itself live with the caller.

use vstd::prelude::*;
use vstd::string::StrSliceExecFns;
use vstd::string::StringExecFns;
use crate::text::spec_contains;
use crate::text::spec_ends_with;
use crate::text::str_contains;
use crate::text::str_ends_with;
use crate::text::str_eq;

verus! {

pub open spec fn opt_str_view(t: Option<&String>) -> Option<Seq<char>> {
    match t {
        Some(s) => Some(s@),
        None => None,
    }
}

/// The position of the last occurrence of `c`, if any.
pub open spec fn spec_last_index_of(s: Seq<char>, c: char) -> Option<int>
    decreases s.len(),
{
    if s.len() == 0 {
        None
    } else if s.last() == c {
        Some(s.len() - 1)
    } else {
        spec_last_index_of(s.drop_last(), c)
    }
}

fn last_index_of(s: &str, c: char) -> (r: Option<usize>)
    ensures
        match r {
            Some(k) => k < s@.len() && spec_last_index_of(s@, c) == Some(k as int),
            None => spec_last_index_of(s@, c) is None,
        },
{
    let n = s.unicode_len();
    proof {
        assert(s@.take(n as int) =~= s@);
    }
    let mut i: usize = n;
    while i > 0
        invariant
            i <= n,
            n == s@.len(),
            spec_last_index_of(s@, c) == spec_last_index_of(s@.take(i as int), c),
        decreases i,
    {
        let j = i - 1;
        proof {
            assert(s@.take(j + 1).last() == s@[j as int]);
            assert(s@.take(j + 1).drop_last() =~= s@.take(j as int));
        }
        if s.get_char(j) == c {
            return Some(j);
        }
        i = j;
    }
    None
}

/// A path whose final component is a real file name gets its extension
/// replaced by "png"; one without an extension gets ".png" appended; a bare
/// ".", ".." or empty final component stays as it is.
pub open spec fn spec_with_png_extension(p: Seq<char>) -> Seq<char> {
    let comp_start: int = match spec_last_index_of(p, '/') {
        Some(k) => k + 1,
        None => 0,
    };
    let comp = p.subrange(comp_start, p.len() as int);
    if comp.len() == 0 || comp == "."@ || comp == ".."@ {
        p
    } else {
        match spec_last_index_of(comp, '.') {
            Some(k) => if k > 0 {
                p.subrange(0, comp_start + k) + ".png"@
            } else {
                p + ".png"@
            },
            None => p + ".png"@,
        }
    }
}

fn with_png_extension(p: &str) -> (r: String)
    ensures
        r@ == spec_with_png_extension(p@),
{
    let n = p.unicode_len();
    let comp_start = match last_index_of(p, '/') {
        Some(k) => k + 1,
        None => 0,
    };
    let comp = p.substring_char(comp_start, n);
    if comp.unicode_len() == 0 || str_eq(comp, ".") || str_eq(comp, "..") {
        return String::from_str(p);
    }
    match last_index_of(comp, '.') {
        Some(k) => if k > 0 {
            String::from_str(p.substring_char(0, comp_start + k)).concat(".png")
        } else {
            String::from_str(p).concat(".png")
        },
        None => String::from_str(p).concat(".png"),
    }
}

/// Whether the path already names one of the accepted image extensions.
pub open spec fn spec_image_ext(p: Seq<char>) -> bool {
    ||| spec_ends_with(p, ".png"@)
    ||| spec_ends_with(p, ".jpg"@)
    ||| spec_ends_with(p, ".jpeg"@)
    ||| spec_ends_with(p, ".gif"@)
    ||| spec_ends_with(p, ".webp"@)
}

/// Where the image is written: no output path means the bare filename; a
/// directory (or a path with a trailing slash) gets the filename joined to
/// it; any other path keeps an accepted image extension or is renamed to
/// ".png".
pub open spec fn spec_resolve_output_path(
    output: Option<Seq<char>>,
    output_is_dir: bool,
    filename: Seq<char>,
) -> Seq<char> {
    match output {
        None => filename,
        Some(p) => {
            if output_is_dir || (p.len() > 0 && p.last() == '/') {
                if p.len() == 0 {
                    filename
                } else if p.last() == '/' {
                    p + filename
                } else {
                    p + "/"@ + filename
                }
            } else if spec_image_ext(p) {
                p
            } else {
                spec_with_png_extension(p)
            }
        },
    }
}

/// The filename composed for a generated image: timestamp, random suffix,
/// and the fixed extension.
pub fn compose_filename(timestamp: &str, suffix: &str) -> (r: String)
    ensures
        r@ == timestamp@ + "_"@ + suffix@ + ".png"@,
{
    String::from_str(timestamp).concat("_").concat(suffix).concat(".png")
}

/// A character the random filename suffix keeps: an ASCII lowercase letter
/// or digit.
pub open spec fn spec_filename_char(c: char) -> bool {
    (('a' as u32) <= (c as u32) && (c as u32) <= ('z' as u32)) || (('0' as u32) <= (c as u32) && (
    c as u32) <= ('9' as u32))
}

pub fn is_filename_char(c: char) -> (r: bool)
    ensures
        r == spec_filename_char(c),
{
    (('a' as u32) <= (c as u32) && (c as u32) <= ('z' as u32)) || (('0' as u32) <= (c as u32) && (
    c as u32) <= ('9' as u32))
}

/// Which terminal graphics protocol a preview should use.
#[derive(Debug, Clone, Copy, PartialEq, Eq, Structural)]
pub enum TerminalSupport {
    Kitty,
    ITerm2,
    HalfBlocks,
}

/// The protocol owed to the terminal's own report (the kitty and iTerm
/// probes), then to the TERM and TERM_PROGRAM names, and half-block cells
/// as the fallback.
pub open spec fn spec_detect(
    kitty: bool,
    iterm: bool,
    term: Option<Seq<char>>,
    term_program: Option<Seq<char>>,
) -> TerminalSupport {
    if kitty {
        TerminalSupport::Kitty
    } else if iterm {
        TerminalSupport::ITerm2
    } else if (term matches Some(t) && (spec_contains(t, "kitty"@) || spec_contains(
        t,
        "wezterm"@,
    ))) {
        TerminalSupport::Kitty
    } else if (term_program matches Some(tp) && tp == "iTerm.app"@) {
        TerminalSupport::ITerm2
    } else if (term_program matches Some(tp) && tp == "WezTerm"@) {
        TerminalSupport::Kitty
    } else {
        TerminalSupport::HalfBlocks
    }
}

/// Handles image saving and terminal display decisions.
pub struct ImageHandler {
    width: u32,
    height: Option<u32>,
    enable_preview: bool,
}

impl ImageHandler {
    pub closed spec fn spec_width(&self) -> u32 {
        self.width
    }

    pub closed spec fn spec_height(&self) -> Option<u32> {
        self.height
    }

    pub closed spec fn spec_preview(&self) -> bool {
        self.enable_preview
    }

    /// Create a new image handler.
    pub fn new(width: u32, height: Option<u32>, enable_preview: bool) -> (r: Self)
        ensures
            r.spec_width() == width,
            r.spec_height() == height,
            r.spec_preview() == enable_preview,
    {
        ImageHandler { width, height, enable_preview }
    }

    /// Resolve the output path for the given filename. The caller reports
    /// whether the path names an existing directory; everything else is
    /// decided here.
    pub fn resolve_output_path(
        &self,
        output: Option<&String>,
        output_is_dir: bool,
        filename: &String,
    ) -> (r: String)
        ensures
            r@ == spec_resolve_output_path(opt_str_view(output), output_is_dir, filename@),
    {
        match output {
            None => filename.clone(),
            Some(p) => {
                let n = p.as_str().unicode_len();
                let ends_slash = if n > 0 {
                    p.as_str().get_char(n - 1) == '/'
                } else {
                    false
                };
                if output_is_dir || ends_slash {
                    if n == 0 {
                        filename.clone()
                    } else if ends_slash {
                        p.clone().concat(filename.as_str())
                    } else {
                        p.clone().concat("/").concat(filename.as_str())
                    }
                } else if str_ends_with(p.as_str(), ".png") || str_ends_with(p.as_str(), ".jpg")
                    || str_ends_with(p.as_str(), ".jpeg") || str_ends_with(p.as_str(), ".gif")
                    || str_ends_with(p.as_str(), ".webp") {
                    p.clone()
                } else {
                    with_png_extension(p.as_str())
                }
            },
        }
    }

    /// Detect terminal graphics support from the probes and environment
    /// names the caller read.
    pub fn detect_terminal_support(
        kitty_support: bool,
        iterm_supported: bool,
        term: Option<&String>,
        term_program: Option<&String>,
    ) -> (r: TerminalSupport)
        ensures
            r == spec_detect(
                kitty_support,
                iterm_supported,
                opt_str_view(term),
                opt_str_view(term_program),
            ),
    {
        if kitty_support {
            return TerminalSupport::Kitty;
        }
        if iterm_supported {
            return TerminalSupport::ITerm2;
        }
        match term {
            Some(t) => {
                if str_contains(t.as_str(), "kitty") || str_contains(t.as_str(), "wezterm") {
                    return TerminalSupport::Kitty;
                }
            },
            None => {},
        }
        match term_program {
            Some(tp) => {
                if str_eq(tp.as_str(), "iTerm.app") {
                    return TerminalSupport::ITerm2;
                }
                if str_eq(tp.as_str(), "WezTerm") {
                    return TerminalSupport::Kitty;
                }
            },
            None => {},
        }
        TerminalSupport::HalfBlocks
    }
}

} // verus!
