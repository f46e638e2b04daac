//! Batch processing configuration.
//!
//! A configuration lists the screenshots to take plus global
//! defaults.  Loading and saving the file is the caller's concern;
//! here live the default merging and the validation rules.

use vstd::prelude::*;

use crate::error::WebshotError;
use crate::text::ci_matches;
use crate::text::spec_extension;
use crate::text::str_ci_matches;
use crate::text::dec_str_u64;
use crate::text::extension_of;

verus! {

/// Batch processing configuration.
#[derive(Debug, Clone)]
pub struct Config {
    /// List of screenshots to take.
    pub screenshots: Vec<ScreenshotConfig>,
    /// Global settings that apply to all screenshots.
    pub defaults: DefaultConfig,
}

/// Individual screenshot configuration.
#[derive(Debug, Clone)]
pub struct ScreenshotConfig {
    /// Target URL.
    pub url: String,
    /// Output file path.
    pub output: String,
    /// Viewport width.
    pub width: u32,
    /// Viewport height.
    pub height: u32,
    /// CSS selector for an element screenshot.
    pub selector: Option<String>,
    /// JavaScript to execute before the screenshot.
    pub javascript: Option<String>,
    /// Element to wait for before taking the screenshot.
    pub wait_for: Option<String>,
    /// Timeout in seconds.
    pub timeout: u64,
    /// Enable retina/high-DPI mode.
    pub retina: bool,
    /// JPEG quality (1-100).
    pub quality: Option<u8>,
    /// Wait time before taking the screenshot.
    pub wait: u64,
    /// Custom user agent.
    pub user_agent: Option<String>,
    /// Output format override.
    pub format: Option<String>,
    /// Custom headers, as name and value pairs.
    pub headers: Vec<(String, String)>,
    /// Cookies to set.
    pub cookies: Vec<CookieConfig>,
    /// Authentication credentials.
    pub auth: Option<AuthConfig>,
    /// Comparison configuration for visual regression testing.
    pub comparison: Option<ComparisonConfig>,
}

/// Cookie configuration.
#[derive(Debug, Clone)]
pub struct CookieConfig {
    pub name: String,
    pub value: String,
    pub domain: Option<String>,
    pub path: Option<String>,
    pub secure: Option<bool>,
    pub http_only: Option<bool>,
}

/// Comparison configuration for visual regression testing.
#[derive(Debug, Clone)]
pub struct ComparisonConfig {
    /// Base image path for comparison.
    pub baseline_path: Option<String>,
    /// Comparison algorithm to use.
    pub algorithm: String,
    /// Threshold for considering images similar, in millionths.
    pub threshold: i64,
    /// Generate a difference image.
    pub generate_diff: bool,
    /// Path for the difference image output.
    pub diff_output_path: Option<String>,
    /// Ignore anti-aliasing differences.
    pub ignore_antialiasing: bool,
    /// Color for highlighting differences (RGB format: "255,0,0").
    pub diff_color: String,
}

/// Authentication configuration.
#[derive(Debug, Clone)]
pub struct AuthConfig {
    pub username: String,
    pub password: String,
}

/// Default configuration applied to all screenshots.
#[derive(Debug, Clone)]
pub struct DefaultConfig {
    /// Default viewport width.
    pub width: u32,
    /// Default viewport height.
    pub height: u32,
    /// Default timeout.
    pub timeout: u64,
    /// Default user agent.
    pub user_agent: Option<String>,
    /// Default output directory.
    pub output_dir: Option<String>,
    /// Default wait time.
    pub wait: u64,
    /// Default retina mode.
    pub retina: bool,
    /// Default JPEG quality.
    pub quality: Option<u8>,
    /// Global headers, as name and value pairs.
    pub headers: Vec<(String, String)>,
    /// Global cookies.
    pub cookies: Vec<CookieConfig>,
}

/// The default viewport width.
pub fn default_width() -> (r: u32)
    ensures
        r == 1280,
{
    1280
}

/// The default viewport height.
pub fn default_height() -> (r: u32)
    ensures
        r == 800,
{
    800
}

/// The default timeout in seconds.
pub fn default_timeout() -> (r: u64)
    ensures
        r == 30,
{
    30
}

/// The default comparison-algorithm name.
pub fn default_algorithm() -> (r: String)
    ensures
        r@ == "pixel-diff"@,
{
    String::from_str("pixel-diff")
}

/// The default difference-highlight color string.
pub fn default_diff_color() -> (r: String)
    ensures
        r@ == "255,0,0"@,
{
    String::from_str("255,0,0")
}

impl DefaultConfig {
    /// Whether this value holds the built-in defaults.
    pub open spec fn is_default(&self) -> bool {
        &&& self.width == 1280
        &&& self.height == 800
        &&& self.timeout == 30
        &&& self.user_agent is None
        &&& self.output_dir is None
        &&& self.wait == 0
        &&& !self.retina
        &&& self.quality is None
        &&& self.headers@.len() == 0
        &&& self.cookies@.len() == 0
    }
}

impl Default for DefaultConfig {
    /// The built-in defaults: a 1280x800 viewport, a 30 second
    /// timeout, and nothing else set.
    fn default() -> (r: Self)
        ensures
            r.is_default(),
    {
        DefaultConfig {
            width: default_width(),
            height: default_height(),
            timeout: default_timeout(),
            user_agent: None,
            output_dir: None,
            wait: 0,
            retina: false,
            quality: None,
            headers: Vec::new(),
            cookies: Vec::new(),
        }
    }
}

/// Relies on `url::Url::parse`: whether a string parses as a URL is
/// a function of the string alone; the call only reads its input.
#[verifier::external_body]
fn url_is_valid(s: &str) -> (r: bool)
    ensures
        r == url_parse_ok(s@),
{
    url::Url::parse(s).is_ok()
}

/// What `url::Url::parse` accepts: whether a string is a valid URL.
pub uninterp spec fn url_parse_ok(s: Seq<char>) -> bool;

/// An output path acceptable without an explicit format override:
/// its extension selects one of the non-WebP formats.
pub open spec fn output_extension_ok(s: Seq<char>) -> bool {
    spec_extension(s) matches Some(e) && (ci_matches(e, "png"@) || ci_matches(e, "jpg"@)
        || ci_matches(e, "jpeg"@) || ci_matches(e, "pdf"@))
}

impl ScreenshotConfig {
    /// One screenshot entry passes validation: a well-formed URL, a
    /// non-zero viewport, any quality inside 1-100, a non-zero
    /// timeout, and — without a format override — an output path
    /// whose extension is supported.
    pub open spec fn is_valid(&self) -> bool {
        &&& url_parse_ok(self.url@)
        &&& self.width != 0
        &&& self.height != 0
        &&& (self.quality matches Some(q) ==> 1 <= q <= 100)
        &&& self.timeout != 0
        &&& (self.format is None ==> output_extension_ok(self.output@))
    }
}

impl Config {
    /// The configuration passes validation: at least one screenshot,
    /// each one valid.
    pub open spec fn is_valid(&self) -> bool {
        &&& self.screenshots@.len() > 0
        &&& forall|i: int| 0 <= i < self.screenshots@.len() ==> self.screenshots@[i].is_valid()
    }

    /// Validate the configuration: `Ok` exactly when at least one
    /// screenshot is listed and every entry is valid.
    pub fn validate(&self) -> (r: Result<(), WebshotError>)
        ensures
            r is Ok <==> self.is_valid(),
            self.screenshots@.len() == 0 ==> (r->Err_0 matches WebshotError::Config(m) && m@
                == "No screenshots defined in configuration"@),
    {
        if self.screenshots.len() == 0 {
            return Err(
                WebshotError::Config(String::from_str("No screenshots defined in configuration")),
            );
        }
        let mut i: usize = 0;
        while i < self.screenshots.len()
            invariant
                i <= self.screenshots@.len(),
                forall|j: int| 0 <= j < i ==> self.screenshots@[j].is_valid(),
            decreases self.screenshots@.len() - i,
        {
            let screenshot = &self.screenshots[i];
            if !url_is_valid(screenshot.url.as_str()) {
                let mut msg = String::from_str("Invalid URL in screenshot ");
                let idx = dec_str_u64(i as u64);
                msg.append(idx.as_str());
                return Err(WebshotError::Config(msg));
            }
            if screenshot.width == 0 || screenshot.height == 0 {
                return Err(
                    WebshotError::InvalidViewport {
                        width: screenshot.width,
                        height: screenshot.height,
                    },
                );
            }
            match screenshot.quality {
                Some(quality) => {
                    if quality < 1 || quality > 100 {
                        let mut msg = String::from_str(
                            "JPEG quality must be between 1-100, got: ",
                        );
                        let q = dec_str_u64(quality as u64);
                        msg.append(q.as_str());
                        return Err(WebshotError::Config(msg));
                    }
                },
                None => {},
            }
            if screenshot.timeout == 0 {
                return Err(
                    WebshotError::Config(
                        String::from_str("Timeout must be greater than 0, got: 0"),
                    ),
                );
            }
            if screenshot.format.is_none() {
                match extension_of(screenshot.output.as_str()) {
                    Some(ext) => {
                        if !(str_ci_matches(ext, "png") || str_ci_matches(ext, "jpg")
                            || str_ci_matches(ext, "jpeg") || str_ci_matches(ext, "pdf")) {
                            return Err(
                                WebshotError::UnsupportedFormat { format: ext.to_owned() },
                            );
                        }
                    },
                    None => {
                        let mut msg = String::from_str(
                            "Output file must have a valid extension: ",
                        );
                        msg.append(screenshot.output.as_str());
                        return Err(WebshotError::Config(msg));
                    },
                }
            }
            i = i + 1;
        }
        Ok(())
    }
}

/// Whether a header list holds the given name.
pub open spec fn has_header(h: Seq<(String, String)>, name: Seq<char>) -> bool {
    exists|j: int| 0 <= j < h.len() && (#[trigger] h[j]).0@ == name
}

/// The merged header list: each default header is appended only
/// when its name is absent, working through the defaults front to
/// back.
pub open spec fn merge_headers(h: Seq<(String, String)>, d: Seq<(String, String)>) -> Seq<
    (String, String),
>
    decreases d.len(),
{
    if d.len() == 0 {
        h
    } else {
        let h2 = if has_header(h, d[0].0@) {
            h
        } else {
            h.push(d[0])
        };
        merge_headers(h2, d.subrange(1, d.len() as int))
    }
}

/// Merging one more default header appends it to the merge so far
/// when its name is absent there.
proof fn lemma_merge_headers_snoc(h: Seq<(String, String)>, d: Seq<(String, String)>, x: (
    String,
    String,
))
    ensures
        merge_headers(h, d.push(x)) == if has_header(merge_headers(h, d), x.0@) {
            merge_headers(h, d)
        } else {
            merge_headers(h, d).push(x)
        },
    decreases d.len(),
{
    if d.len() == 0 {
        assert(d.push(x)[0] == x);
        let one = d.push(x);
        assert(one.subrange(1, 1) =~= Seq::<(String, String)>::empty());
        let h2 = if has_header(h, x.0@) {
            h
        } else {
            h.push(x)
        };
        assert(merge_headers(h, one) == merge_headers(h2, one.subrange(1, 1)));
        assert(merge_headers(h2, one.subrange(1, 1)) == h2);
        assert(merge_headers(h, d) == h);
    } else {
        let h2 = if has_header(h, d[0].0@) {
            h
        } else {
            h.push(d[0])
        };
        assert(d.push(x)[0] == d[0]);
        let rest = d.subrange(1, d.len() as int);
        assert(d.push(x).subrange(1, d.len() as int + 1) =~= rest.push(x));
        lemma_merge_headers_snoc(h2, rest, x);
        assert(merge_headers(h, d.push(x)) == merge_headers(h2, rest.push(x)));
        assert(merge_headers(h, d) == merge_headers(h2, rest));
    }
}

/// An output path counts as relative unless it starts with `/`.
pub open spec fn is_relative_path(s: Seq<char>) -> bool {
    !(s.len() > 0 && s[0] == '/')
}

/// A directory joined with a relative path: a `/` is put between
/// them unless the directory already ends with one.
pub open spec fn joined_path(dir: Seq<char>, rel: Seq<char>) -> Seq<char> {
    if dir.len() > 0 && dir[dir.len() - 1] == '/' {
        dir + rel
    } else {
        dir + "/"@ + rel
    }
}

/// How one screenshot entry relates to its form after the defaults
/// `d` are applied: an unset or built-in-default field takes the
/// global value, everything else is kept.
pub open spec fn screenshot_merged(o: ScreenshotConfig, d: DefaultConfig, n: ScreenshotConfig) -> bool {
    &&& n.url == o.url
    &&& n.width == if o.width == 1280 && d.width != 1280 {
        d.width
    } else {
        o.width
    }
    &&& n.height == if o.height == 800 && d.height != 800 {
        d.height
    } else {
        o.height
    }
    &&& n.timeout == if o.timeout == 30 && d.timeout != 30 {
        d.timeout
    } else {
        o.timeout
    }
    &&& n.user_agent == if o.user_agent is None {
        d.user_agent
    } else {
        o.user_agent
    }
    &&& n.quality == if o.quality is None {
        d.quality
    } else {
        o.quality
    }
    &&& n.headers@ == merge_headers(o.headers@, d.headers@)
    &&& n.cookies@ == if o.cookies@.len() == 0 {
        d.cookies@
    } else {
        o.cookies@
    }
    &&& n.output@ == match d.output_dir {
        Some(dir) => if is_relative_path(o.output@) {
            joined_path(dir@, o.output@)
        } else {
            o.output@
        },
        None => o.output@,
    }
    &&& n.selector == o.selector
    &&& n.javascript == o.javascript
    &&& n.wait_for == o.wait_for
    &&& n.retina == o.retina
    &&& n.wait == o.wait
    &&& n.format == o.format
    &&& n.auth == o.auth
    &&& n.comparison == o.comparison
}

/// Copy an optional string.
fn clone_opt_string(o: &Option<String>) -> (r: Option<String>)
    ensures
        r == *o,
{
    match o {
        Some(s) => Some(s.clone()),
        None => None,
    }
}

impl Config {
    /// Apply the global defaults to every screenshot entry, as a
    /// loaded configuration receives them: fields still at their
    /// built-in defaults take the configured global value, default
    /// headers are merged in by name, default cookies fill an empty
    /// cookie list, and a relative output path is resolved against
    /// the default output directory.
    pub fn apply_defaults(&mut self)
        ensures
            final(self).defaults == old(self).defaults,
            final(self).screenshots@.len() == old(self).screenshots@.len(),
            forall|i: int|
                0 <= i < old(self).screenshots@.len() ==> screenshot_merged(
                    old(self).screenshots@[i],
                    old(self).defaults,
                    #[trigger] final(self).screenshots@[i],
                ),
    {
        let mut i: usize = 0;
        while i < self.screenshots.len()
            invariant
                self.defaults == old(self).defaults,
                self.screenshots@.len() == old(self).screenshots@.len(),
                i <= self.screenshots@.len(),
                forall|j: int|
                    0 <= j < i ==> screenshot_merged(
                        old(self).screenshots@[j],
                        old(self).defaults,
                        #[trigger] self.screenshots@[j],
                    ),
                forall|j: int|
                    i <= j < self.screenshots@.len() ==> #[trigger] self.screenshots@[j] == old(
                        self,
                    ).screenshots@[j],
            decreases self.screenshots@.len() - i,
        {
            let merged = merge_one(&self.screenshots[i], &self.defaults);
            self.screenshots[i] = merged;
            i = i + 1;
        }
    }
}

/// Build the merged form of one screenshot entry.
fn merge_one(sc: &ScreenshotConfig, d: &DefaultConfig) -> (r: ScreenshotConfig)
    ensures
        screenshot_merged(*sc, *d, r),
{
    let width: u32 = if sc.width == 1280 && d.width != 1280 {
        d.width
    } else {
        sc.width
    };
    let height: u32 = if sc.height == 800 && d.height != 800 {
        d.height
    } else {
        sc.height
    };
    let timeout: u64 = if sc.timeout == 30 && d.timeout != 30 {
        d.timeout
    } else {
        sc.timeout
    };
    let user_agent: Option<String> = if sc.user_agent.is_none() {
        clone_opt_string(&d.user_agent)
    } else {
        clone_opt_string(&sc.user_agent)
    };
    let quality: Option<u8> = if sc.quality.is_none() {
        d.quality
    } else {
        sc.quality
    };
    let headers = merged_headers_of(&sc.headers, &d.headers);
    let cookies = if sc.cookies.len() == 0 {
        clone_cookies(&d.cookies)
    } else {
        clone_cookies(&sc.cookies)
    };
    let output: String = match &d.output_dir {
        Some(dir) => {
            if is_relative_str(sc.output.as_str()) {
                join_path(dir.as_str(), sc.output.as_str())
            } else {
                sc.output.clone()
            }
        },
        None => sc.output.clone(),
    };
    ScreenshotConfig {
        url: sc.url.clone(),
        output,
        width,
        height,
        selector: clone_opt_string(&sc.selector),
        javascript: clone_opt_string(&sc.javascript),
        wait_for: clone_opt_string(&sc.wait_for),
        timeout,
        retina: sc.retina,
        quality,
        wait: sc.wait,
        user_agent,
        format: clone_opt_string(&sc.format),
        headers,
        cookies,
        auth: clone_auth(&sc.auth),
        comparison: clone_comparison(&sc.comparison),
    }
}

/// Whether a path string is relative: it does not start with `/`.
fn is_relative_str(s: &str) -> (r: bool)
    ensures
        r == is_relative_path(s@),
{
    let n = s.unicode_len();
    if n == 0 {
        true
    } else {
        s.get_char(0) != '/'
    }
}

/// Join a directory and a relative path with a `/` between them,
/// unless the directory already ends with one.
fn join_path(dir: &str, rel: &str) -> (r: String)
    ensures
        r@ == joined_path(dir@, rel@),
{
    let n = dir.unicode_len();
    let mut s = dir.to_owned();
    if n == 0 || dir.get_char(n - 1) != '/' {
        s.append("/");
    }
    s.append(rel);
    s
}

/// Whether a header list holds the given name.
fn contains_header(h: &Vec<(String, String)>, name: &String) -> (r: bool)
    ensures
        r == has_header(h@, name@),
{
    let mut j: usize = 0;
    while j < h.len()
        invariant
            j <= h@.len(),
            forall|k: int| 0 <= k < j ==> (#[trigger] h@[k]).0@ != name@,
        decreases h@.len() - j,
    {
        if h[j].0 == *name {
            return true;
        }
        j = j + 1;
    }
    false
}

/// Build the merged header list of one screenshot entry.
fn merged_headers_of(h: &Vec<(String, String)>, d: &Vec<(String, String)>) -> (r: Vec<
    (String, String),
>)
    ensures
        r@ == merge_headers(h@, d@),
{
    let mut out: Vec<(String, String)> = Vec::new();
    let mut j: usize = 0;
    while j < h.len()
        invariant
            j <= h@.len(),
            out@.len() == j,
            forall|k: int| 0 <= k < j ==> out@[k] == h@[k],
        decreases h@.len() - j,
    {
        out.push((h[j].0.clone(), h[j].1.clone()));
        j = j + 1;
    }
    proof {
        assert(out@ =~= h@);
        assert(d@.subrange(0, 0) =~= Seq::<(String, String)>::empty());
    }
    let mut k: usize = 0;
    while k < d.len()
        invariant
            k <= d@.len(),
            out@ == merge_headers(h@, d@.subrange(0, k as int)),
        decreases d@.len() - k,
    {
        proof {
            assert(d@.subrange(0, k + 1) =~= d@.subrange(0, k as int).push(d@[k as int]));
            lemma_merge_headers_snoc(h@, d@.subrange(0, k as int), d@[k as int]);
        }
        if !contains_header(&out, &d[k].0) {
            out.push((d[k].0.clone(), d[k].1.clone()));
        }
        k = k + 1;
    }
    proof {
        assert(d@.subrange(0, d@.len() as int) =~= d@);
    }
    out
}

/// Copy a cookie list.
fn clone_cookies(v: &Vec<CookieConfig>) -> (r: Vec<CookieConfig>)
    ensures
        r@ == v@,
{
    let mut out: Vec<CookieConfig> = Vec::new();
    let mut j: usize = 0;
    while j < v.len()
        invariant
            j <= v@.len(),
            out@.len() == j,
            forall|k: int| 0 <= k < j ==> out@[k] == v@[k],
        decreases v@.len() - j,
    {
        let c = &v[j];
        out.push(
            CookieConfig {
                name: c.name.clone(),
                value: c.value.clone(),
                domain: clone_opt_string(&c.domain),
                path: clone_opt_string(&c.path),
                secure: c.secure,
                http_only: c.http_only,
            },
        );
        j = j + 1;
    }
    proof {
        assert(out@ =~= v@);
    }
    out
}

/// Copy optional authentication credentials.
fn clone_auth(a: &Option<AuthConfig>) -> (r: Option<AuthConfig>)
    ensures
        r == *a,
{
    match a {
        Some(x) => Some(
            AuthConfig { username: x.username.clone(), password: x.password.clone() },
        ),
        None => None,
    }
}

/// Copy an optional comparison configuration.
fn clone_comparison(c: &Option<ComparisonConfig>) -> (r: Option<ComparisonConfig>)
    ensures
        r == *c,
{
    match c {
        Some(x) => Some(
            ComparisonConfig {
                baseline_path: clone_opt_string(&x.baseline_path),
                algorithm: x.algorithm.clone(),
                threshold: x.threshold,
                generate_diff: x.generate_diff,
                diff_output_path: clone_opt_string(&x.diff_output_path),
                ignore_antialiasing: x.ignore_antialiasing,
                diff_color: x.diff_color.clone(),
            },
        ),
        None => None,
    }
}

} // verus!
