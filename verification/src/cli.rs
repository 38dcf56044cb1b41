//! The command surface as plain data, the errors of the file-level
//! actions, and the decisions the actions make around external tools.

use vstd::prelude::*;
use vstd::string::StringSliceAdditionalSpecFns;

use crate::rewrite::ReplaceHtmplateError;
use crate::text::{append_all, append_decimal, find, find_first, lower_bytes, to_lower_ascii};
use crate::element::Attribute;
use crate::HtmplateDetails;

verus! {

/// Write the assets to a directory.
#[derive(Debug)]
pub struct AssetsSubcommand {
    /// the directory to write the assets to
    pub asset_directory: String,
}

/// Bundle a script.
#[derive(Debug)]
pub struct BundleSubcommand {
    /// the path to the script file to bundle
    pub source: String,
}

/// Template an htmplate file.
#[derive(Debug)]
pub struct TemplateSubcommand {
    /// the path to the HTML file containing htmplates
    pub source: String,
    /// the file to output the templated HTML to
    pub target: String,
}

/// Watch a directory and transform any relevant files on change.
#[derive(Debug)]
pub struct WatchSubcommand {
    /// the path to watch for file changes
    pub root: String,
}

/// List the htmplate elements.
#[derive(Debug)]
pub struct ListSubcommand {
    /// search string for a specific htmplate element
    pub search: Option<String>,
}

/// Error variants for writing the library files.
#[derive(Debug)]
pub enum WriteLibraryError {
    /// The assets could not be written.
    WriteAssets {
        /// The I/O failure.
        detail: String,
    },
}

/// Error variants for bundling a script.
#[derive(Debug)]
pub enum BundleScriptError {
    /// The system does not have the bundler.
    NoBundler,
    /// The source file's metadata could not be read.
    ReadSourceMetadata {
        /// The I/O failure.
        detail: String,
    },
    /// The source file does not exist or is not a file.
    CannotAccessSource,
    /// The bundler process could not be spawned.
    SpawnBundlerProcess {
        /// The I/O failure.
        detail: String,
    },
    /// The bundler process exited unsuccessfully.
    BundlerProcessError {
        /// What the bundler printed to stderr.
        stderr: String,
        /// The exit code.
        status: i32,
    },
    /// The bundler's output could not be read.
    ReadBundlerOutput {
        /// The I/O failure.
        detail: String,
    },
}

/// Error variants for templating HTML.
#[derive(Debug)]
pub enum TemplateError {
    /// The source file's metadata could not be read.
    ReadSourceMetadata {
        /// The I/O failure.
        detail: String,
    },
    /// The source file does not exist or is not a file.
    CannotAccessSource,
    /// The system does not have the formatter; raw output was written.
    NoFormatter,
    /// The formatter process could not be spawned.
    SpawnFormatter {
        /// The I/O failure.
        detail: String,
    },
    /// The formatter exited unsuccessfully; raw output was written.
    FormatterError {
        /// What the formatter printed to stderr.
        stderr: String,
        /// The exit code.
        status: i32,
    },
    /// The output could not be written.
    WriteOutput {
        /// The I/O failure.
        detail: String,
    },
    /// The formatter's output could not be read.
    ReadFormatterOutput {
        /// The I/O failure.
        detail: String,
    },
    /// The source file could not be read.
    ReadSource {
        /// The I/O failure.
        detail: String,
    },
    /// Templating the source failed.
    Template {
        /// The rewrite error.
        source: ReplaceHtmplateError,
    },
}

/// Error variants for writing formatted HTML.
#[derive(Debug)]
pub enum WriteFormattedError {
    /// The formatter is not installed.
    NoDeno,
    /// The formatter exited unsuccessfully.
    FormatError {
        /// What the formatter printed to stderr.
        stderr: String,
    },
    /// Spawning or speaking to the formatter failed.
    IoError {
        /// The I/O failure.
        detail: String,
    },
}

/// Error variants for watching a directory.
#[derive(Debug)]
pub enum WatchError {
    /// The library assets could not be written.
    WriteLibrary {
        /// The underlying failure.
        source: WriteLibraryError,
    },
    /// The filesystem watcher could not be created or subscribed.
    CreateWatcher {
        /// The watcher's failure.
        detail: String,
    },
    /// The notification channel itself reported an error.
    WatcherError {
        /// The watcher's failure.
        detail: String,
    },
}

/// Error variants for the subcommands.
#[derive(Debug)]
pub enum CommandError {
    /// Listing the htmplates failed.
    List {
        /// The I/O failure.
        detail: String,
    },
    /// Writing the assets failed.
    Assets {
        /// The underlying failure.
        source: WriteLibraryError,
    },
    /// Templating HTML failed.
    Template {
        /// The underlying failure.
        source: TemplateError,
    },
    /// Bundling a script failed.
    Bundle {
        /// The underlying failure.
        source: BundleScriptError,
    },
    /// Watching failed fatally.
    Watch {
        /// The underlying failure.
        source: WatchError,
    },
}

/// How a run of an external tool ended, as reported by the caller that
/// performed the I/O.
#[derive(Debug)]
pub enum ToolOutcome {
    /// The tool is not installed.
    Missing,
    /// The tool could not be spawned or spoken to.
    SpawnFailed {
        /// The I/O failure.
        detail: String,
    },
    /// The tool ran and exited.
    Exited {
        /// The exit code, if there was one.
        code: Option<i32>,
        /// Whether the exit was successful.
        success: bool,
        /// What the tool printed to stdout.
        stdout: String,
        /// What the tool printed to stderr.
        stderr: String,
    },
}

/// The exit code reported for a process, with the smallest code standing in
/// where the process was ended by a signal.
pub open spec fn spec_status_code(code: Option<i32>) -> i32 {
    match code {
        Some(c) => c,
        None => i32::MIN,
    }
}

/// Decide what a run of the bundler means: missing tool, spawn failure and
/// unsuccessful exit each map to their error; a successful exit is success.
pub fn interpret_bundler(outcome: ToolOutcome) -> (r: Result<(), BundleScriptError>)
    ensures
        r == (match outcome {
            ToolOutcome::Missing => Err::<(), BundleScriptError>(BundleScriptError::NoBundler),
            ToolOutcome::SpawnFailed { detail } => Err(
                BundleScriptError::SpawnBundlerProcess { detail },
            ),
            ToolOutcome::Exited { code, success, stdout, stderr } => if success {
                Ok(())
            } else {
                Err(
                    BundleScriptError::BundlerProcessError {
                        stderr,
                        status: spec_status_code(code),
                    },
                )
            },
        }),
{
    match outcome {
        ToolOutcome::Missing => Err(BundleScriptError::NoBundler),
        ToolOutcome::SpawnFailed { detail } => Err(
            BundleScriptError::SpawnBundlerProcess { detail },
        ),
        ToolOutcome::Exited { code, success, stdout, stderr } => {
            if success {
                Ok(())
            } else {
                let status: i32 = match code {
                    Some(c) => c,
                    None => i32::MIN,
                };
                Err(BundleScriptError::BundlerProcessError { stderr, status })
            }
        },
    }
}

/// Decide what a run of the formatter means: a successful exit hands back
/// the formatted output; a missing tool, a spawn failure and an
/// unsuccessful exit each map to their error, in which case the caller
/// falls back to writing the unformatted output.
pub fn interpret_formatter(outcome: ToolOutcome) -> (r: Result<String, TemplateError>)
    ensures
        r == (match outcome {
            ToolOutcome::Missing => Err::<String, TemplateError>(TemplateError::NoFormatter),
            ToolOutcome::SpawnFailed { detail } => Err(TemplateError::SpawnFormatter { detail }),
            ToolOutcome::Exited { code, success, stdout, stderr } => if success {
                Ok(stdout)
            } else {
                Err(TemplateError::FormatterError { stderr, status: spec_status_code(code) })
            },
        }),
{
    match outcome {
        ToolOutcome::Missing => Err(TemplateError::NoFormatter),
        ToolOutcome::SpawnFailed { detail } => Err(TemplateError::SpawnFormatter { detail }),
        ToolOutcome::Exited { code, success, stdout, stderr } => {
            if success {
                Ok(stdout)
            } else {
                let status: i32 = match code {
                    Some(c) => c,
                    None => i32::MIN,
                };
                Err(TemplateError::FormatterError { stderr, status })
            }
        },
    }
}

/// The details whose tag contains the search needle, in registry order.
pub open spec fn spec_filter_details(ds: Seq<HtmplateDetails>, needle: Seq<u8>) -> Seq<
    HtmplateDetails,
>
    decreases ds.len(),
{
    if ds.len() == 0 {
        Seq::empty()
    } else {
        let rest = spec_filter_details(ds.drop_first(), needle);
        if find_first(ds[0].tag.spec_bytes(), needle) is Some {
            seq![ds[0]] + rest
        } else {
            rest
        }
    }
}

/// Keep the details whose tag contains the search string, compared after
/// ASCII-lowercasing the search; tags are already lower case.
pub fn filter_details(details: Vec<HtmplateDetails>, search: &str) -> (r: Vec<HtmplateDetails>)
    ensures
        r@ == spec_filter_details(details@, lower_bytes(search.spec_bytes())),
{
    let needle = to_lower_ascii(search.as_bytes());
    let ghost dv = details@;
    let mut out: Vec<HtmplateDetails> = Vec::new();
    let mut rest = details;
    proof {
        assert(spec_filter_details(dv, needle@) =~= out@ + spec_filter_details(rest@, needle@));
    }
    while rest.len() > 0
        invariant
            spec_filter_details(dv, needle@) == out@ + spec_filter_details(rest@, needle@),
            needle@ == lower_bytes(search.spec_bytes()),
        decreases rest@.len(),
    {
        let ghost r0 = rest@;
        let d = rest.remove(0);
        proof {
            assert(rest@ =~= r0.drop_first());
        }
        if find(d.tag.as_bytes(), needle.as_slice()).is_some() {
            out.push(d);
            proof {
                assert(spec_filter_details(dv, needle@) =~= out@ + spec_filter_details(
                    rest@,
                    needle@,
                ));
            }
        }
    }
    proof {
        assert(spec_filter_details(rest@, needle@) =~= Seq::<HtmplateDetails>::empty());
        assert(spec_filter_details(dv, needle@) =~= out@);
    }
    out
}

/// A run of `n` spaces.
pub open spec fn spaces(n: int) -> Seq<u8>
    decreases n,
{
    if n <= 0 {
        Seq::empty()
    } else {
        seq![32u8] + spaces(n - 1)
    }
}

/// Append `n` spaces to `out`.
fn append_spaces(out: &mut Vec<u8>, n: usize)
    ensures
        final(out)@ == old(out)@ + spaces(n as int),
{
    let mut p: usize = 0;
    while p < n
        invariant
            0 <= p <= n,
            out@ == old(out)@ + spaces(p as int),
        decreases n - p,
    {
        out.push(32);
        proof {
            assert(spaces(p + 1) =~= spaces(p as int) + seq![32u8]) by {
                lemma_spaces_snoc(p + 1);
            }
            assert(out@ =~= old(out)@ + spaces(p + 1));
        }
        p = p + 1;
    }
}

/// A nonempty run of spaces is the shorter run plus one space.
proof fn lemma_spaces_snoc(n: int)
    requires
        n > 0,
    ensures
        spaces(n) == spaces(n - 1) + seq![32u8],
    decreases n,
{
    if n == 1 {
        assert(spaces(1) =~= spaces(0) + seq![32u8]);
    } else {
        lemma_spaces_snoc(n - 1);
        assert(spaces(n) =~= spaces(n - 1) + seq![32u8]);
    }
}

/// The alignment width of an attribute list from entry `i` on, given the
/// width found so far: the longest attribute name, ignoring names too long
/// to align on.
pub open spec fn listing_width_from(attrs: Seq<Attribute>, i: int, acc: int) -> int
    decreases attrs.len() - i,
{
    if i < 0 || i >= attrs.len() {
        acc
    } else {
        let n = attrs[i].name.spec_bytes().len() as int;
        listing_width_from(
            attrs,
            i + 1,
            if n > acc && n <= 1000 {
                n
            } else {
                acc
            },
        )
    }
}

/// The alignment width of an attribute list.
pub open spec fn listing_width(attrs: Seq<Attribute>) -> int {
    listing_width_from(attrs, 0, 0)
}

/// One attribute's listing line: padding that right-aligns the names, `*`
/// for a required attribute, then the name and its description.
pub open spec fn attr_line(a: Attribute, width: int) -> Seq<u8> {
    let n = a.name.spec_bytes().len() as int;
    spaces(
        if n <= width {
            width - n + 2
        } else {
            2
        },
    ) + (if a.required {
        "*".spec_bytes()
    } else {
        " ".spec_bytes()
    }) + "[".spec_bytes() + a.name.spec_bytes() + "]: ".spec_bytes() + a.description.spec_bytes()
        + "\n".spec_bytes()
}

/// The listing lines of an attribute list, in order.
pub open spec fn attr_lines(attrs: Seq<Attribute>, width: int) -> Seq<u8>
    decreases attrs.len(),
{
    if attrs.len() == 0 {
        Seq::empty()
    } else {
        attr_line(attrs[0], width) + attr_lines(attrs.drop_first(), width)
    }
}

/// One component's listing entry: its tag and description, then one line
/// per attribute, then a blank line.
pub open spec fn listing_entry(d: HtmplateDetails) -> Seq<u8> {
    "<".spec_bytes() + d.tag.spec_bytes() + " /> ".spec_bytes() + d.description.spec_bytes()
        + "\n".spec_bytes() + attr_lines(d.attributes@, listing_width(d.attributes@))
        + "\n".spec_bytes()
}

/// The whole listing, one entry per component, in the given order.
pub open spec fn listing_lines(ds: Seq<HtmplateDetails>) -> Seq<u8>
    decreases ds.len(),
{
    if ds.len() == 0 {
        Seq::empty()
    } else {
        listing_entry(ds[0]) + listing_lines(ds.drop_first())
    }
}

/// The listing lines of one component's attributes.
fn append_attr_lines(out: &mut Vec<u8>, attrs: &Vec<Attribute>, width: usize)
    requires
        width <= 1000,
    ensures
        final(out)@ == old(out)@ + attr_lines(attrs@, width as int),
{
    let ghost av = attrs@;
    proof {
        assert(av.skip(0) =~= av);
        assert(old(out)@ + attr_lines(av, width as int) =~= old(out)@ + attr_lines(
            av.skip(0),
            width as int,
        ));
    }
    let mut k: usize = 0;
    while k < attrs.len()
        invariant
            0 <= k <= attrs@.len(),
            av == attrs@,
            width <= 1000,
            old(out)@ + attr_lines(av, width as int) == out@ + attr_lines(
                av.skip(k as int),
                width as int,
            ),
        decreases attrs@.len() - k,
    {
        proof {
            assert(av.skip(k as int)[0] == av[k as int]);
            assert(av.skip(k as int).drop_first() =~= av.skip(k + 1));
        }
        let name_len = attrs[k].name.as_bytes().len();
        let mut pad: usize = 2;
        if name_len <= width {
            pad = width - name_len + 2;
        }
        append_spaces(out, pad);
        if attrs[k].required {
            append_all(out, "*".as_bytes());
        } else {
            append_all(out, " ".as_bytes());
        }
        append_all(out, "[".as_bytes());
        append_all(out, attrs[k].name.as_bytes());
        append_all(out, "]: ".as_bytes());
        append_all(out, attrs[k].description.as_bytes());
        append_all(out, "\n".as_bytes());
        proof {
            assert(old(out)@ + attr_lines(av, width as int) =~= out@ + attr_lines(
                av.skip(k + 1),
                width as int,
            ));
        }
        k = k + 1;
    }
    proof {
        assert(attr_lines(av.skip(av.len() as int), width as int) =~= Seq::<u8>::empty());
        assert(final(out)@ =~= old(out)@ + attr_lines(av, width as int));
    }
}

/// The alignment width of one component's attributes.
fn attribute_width(attrs: &Vec<Attribute>) -> (r: usize)
    ensures
        r == listing_width(attrs@),
        r <= 1000,
{
    let mut width: usize = 0;
    let mut j: usize = 0;
    while j < attrs.len()
        invariant
            0 <= j <= attrs@.len(),
            width <= 1000,
            listing_width(attrs@) == listing_width_from(attrs@, j as int, width as int),
        decreases attrs@.len() - j,
    {
        let n = attrs[j].name.as_bytes().len();
        if n > width && n <= 1000 {
            width = n;
        }
        j = j + 1;
    }
    width
}

/// Render the htmplate listing in bytes: each component's tag and
/// description, then one line per attribute, aligned on the attribute
/// names, with `*` marking the required ones.
pub fn htmplate_listing_bytes(details: &Vec<HtmplateDetails>) -> (r: Vec<u8>)
    ensures
        r@ == listing_lines(details@),
{
    let ghost dv = details@;
    let mut out: Vec<u8> = Vec::new();
    proof {
        assert(dv.skip(0) =~= dv);
        assert(listing_lines(dv) =~= out@ + listing_lines(dv.skip(0)));
    }
    let mut i: usize = 0;
    while i < details.len()
        invariant
            0 <= i <= details@.len(),
            dv == details@,
            listing_lines(dv) == out@ + listing_lines(dv.skip(i as int)),
        decreases details@.len() - i,
    {
        proof {
            assert(dv.skip(i as int)[0] == dv[i as int]);
            assert(dv.skip(i as int).drop_first() =~= dv.skip(i + 1));
        }
        append_all(&mut out, "<".as_bytes());
        append_all(&mut out, details[i].tag.as_bytes());
        append_all(&mut out, " /> ".as_bytes());
        append_all(&mut out, details[i].description.as_bytes());
        append_all(&mut out, "\n".as_bytes());
        let width = attribute_width(&details[i].attributes);
        append_attr_lines(&mut out, &details[i].attributes, width);
        append_all(&mut out, "\n".as_bytes());
        proof {
            assert(listing_lines(dv) =~= out@ + listing_lines(dv.skip(i + 1)));
        }
        i = i + 1;
    }
    proof {
        assert(listing_lines(dv.skip(dv.len() as int)) =~= Seq::<u8>::empty());
        assert(out@ =~= listing_lines(dv));
    }
    out
}

/// Render the htmplate listing: each component's tag and description, then
/// one line per attribute, aligned on the attribute names, with `*`
/// marking the required ones.
pub fn htmplate_listing(details: &Vec<HtmplateDetails>) -> (r: String)
    ensures
        vstd::utf8::valid_utf8(listing_lines(details@)) ==> vstd::utf8::encode_utf8(r@)
            == listing_lines(details@),
{
    let bytes = htmplate_listing_bytes(details);
    crate::text::bytes_to_string_lossy(bytes.as_slice())
}

/// The rendered form of a bundling error: a one-line summary plus its
/// detail.
pub open spec fn bundle_error_lines(e: BundleScriptError) -> Seq<u8> {
    match e {
        BundleScriptError::NoBundler => "the system does not have the bundler `deno`".spec_bytes(),
        BundleScriptError::ReadSourceMetadata { detail } => {
            "could not read source file metadata: ".spec_bytes() + vstd::utf8::encode_utf8(detail@)
        },
        BundleScriptError::CannotAccessSource => {
            "source file does not exist or is inaccessible".spec_bytes()
        },
        BundleScriptError::SpawnBundlerProcess { detail } => {
            "could not spawn bundler process: ".spec_bytes() + vstd::utf8::encode_utf8(detail@)
        },
        BundleScriptError::BundlerProcessError { stderr, status } => {
            "the bundler process exited with code ".spec_bytes() + crate::text::dec_signed(
                status as int,
            ) + ": ".spec_bytes() + vstd::utf8::encode_utf8(stderr@)
        },
        BundleScriptError::ReadBundlerOutput { detail } => {
            "could not read the bundler output: ".spec_bytes() + vstd::utf8::encode_utf8(detail@)
        },
    }
}

impl BundleScriptError {
    /// Render the error in bytes: a one-line summary plus its detail.
    pub fn describe_bytes(&self) -> (r: Vec<u8>)
        ensures
            r@ == bundle_error_lines(*self),
    {
        let mut out: Vec<u8> = Vec::new();
        match self {
            BundleScriptError::NoBundler => {
                append_all(&mut out, "the system does not have the bundler `deno`".as_bytes());
            },
            BundleScriptError::ReadSourceMetadata { detail } => {
                append_all(&mut out, "could not read source file metadata: ".as_bytes());
                append_all(&mut out, detail.as_str().as_bytes());
            },
            BundleScriptError::CannotAccessSource => {
                append_all(&mut out, "source file does not exist or is inaccessible".as_bytes());
            },
            BundleScriptError::SpawnBundlerProcess { detail } => {
                append_all(&mut out, "could not spawn bundler process: ".as_bytes());
                append_all(&mut out, detail.as_str().as_bytes());
            },
            BundleScriptError::BundlerProcessError { stderr, status } => {
                append_all(&mut out, "the bundler process exited with code ".as_bytes());
                crate::text::append_signed_decimal(&mut out, *status);
                append_all(&mut out, ": ".as_bytes());
                append_all(&mut out, stderr.as_str().as_bytes());
            },
            BundleScriptError::ReadBundlerOutput { detail } => {
                append_all(&mut out, "could not read the bundler output: ".as_bytes());
                append_all(&mut out, detail.as_str().as_bytes());
            },
        }
        proof {
            assert(out@ =~= bundle_error_lines(*self));
        }
        out
    }

    /// Render the error as a one-line summary plus its detail.
    pub fn describe(&self) -> (r: String)
        ensures
            vstd::utf8::valid_utf8(bundle_error_lines(*self)) ==> vstd::utf8::encode_utf8(r@)
                == bundle_error_lines(*self),
    {
        let bytes = self.describe_bytes();
        crate::text::bytes_to_string_lossy(bytes.as_slice())
    }
}

/// The rendered form of a templating error: a one-line summary plus its
/// detail or cause chain.
pub open spec fn template_error_lines(e: TemplateError) -> Seq<u8> {
    match e {
        TemplateError::ReadSourceMetadata { detail } => {
            "could not read source file metadata: ".spec_bytes() + vstd::utf8::encode_utf8(detail@)
        },
        TemplateError::CannotAccessSource => {
            "source file does not exist or is inaccessible".spec_bytes()
        },
        TemplateError::NoFormatter => {
            "the system does not have the formatter `deno`".spec_bytes()
        },
        TemplateError::SpawnFormatter { detail } => {
            "could not spawn the formatter process: ".spec_bytes() + vstd::utf8::encode_utf8(
                detail@,
            )
        },
        TemplateError::FormatterError { stderr, status } => {
            "the formatter process exited with code ".spec_bytes() + crate::text::dec_signed(
                status as int,
            ) + ": ".spec_bytes() + vstd::utf8::encode_utf8(stderr@)
        },
        TemplateError::WriteOutput { detail } => {
            "could not write output: ".spec_bytes() + vstd::utf8::encode_utf8(detail@)
        },
        TemplateError::ReadFormatterOutput { detail } => {
            "could not read formatter output: ".spec_bytes() + vstd::utf8::encode_utf8(detail@)
        },
        TemplateError::ReadSource { detail } => {
            "could not read source file: ".spec_bytes() + vstd::utf8::encode_utf8(detail@)
        },
        TemplateError::Template { source } => {
            "failed templating source file:\n".spec_bytes()
                + crate::rewrite::replace_error_lines(source@)
        },
    }
}

impl TemplateError {
    /// Render the error in bytes: a one-line summary plus its detail or
    /// cause chain.
    pub fn describe_bytes(&self) -> (r: Vec<u8>)
        ensures
            r@ == template_error_lines(*self),
    {
        let mut out: Vec<u8> = Vec::new();
        match self {
            TemplateError::ReadSourceMetadata { detail } => {
                append_all(&mut out, "could not read source file metadata: ".as_bytes());
                append_all(&mut out, detail.as_str().as_bytes());
            },
            TemplateError::CannotAccessSource => {
                append_all(&mut out, "source file does not exist or is inaccessible".as_bytes());
            },
            TemplateError::NoFormatter => {
                append_all(&mut out, "the system does not have the formatter `deno`".as_bytes());
            },
            TemplateError::SpawnFormatter { detail } => {
                append_all(&mut out, "could not spawn the formatter process: ".as_bytes());
                append_all(&mut out, detail.as_str().as_bytes());
            },
            TemplateError::FormatterError { stderr, status } => {
                append_all(&mut out, "the formatter process exited with code ".as_bytes());
                crate::text::append_signed_decimal(&mut out, *status);
                append_all(&mut out, ": ".as_bytes());
                append_all(&mut out, stderr.as_str().as_bytes());
            },
            TemplateError::WriteOutput { detail } => {
                append_all(&mut out, "could not write output: ".as_bytes());
                append_all(&mut out, detail.as_str().as_bytes());
            },
            TemplateError::ReadFormatterOutput { detail } => {
                append_all(&mut out, "could not read formatter output: ".as_bytes());
                append_all(&mut out, detail.as_str().as_bytes());
            },
            TemplateError::ReadSource { detail } => {
                append_all(&mut out, "could not read source file: ".as_bytes());
                append_all(&mut out, detail.as_str().as_bytes());
            },
            TemplateError::Template { source } => {
                append_all(&mut out, "failed templating source file:\n".as_bytes());
                let detail = source.describe_bytes();
                append_all(&mut out, detail.as_slice());
            },
        }
        proof {
            assert(out@ =~= template_error_lines(*self));
        }
        out
    }

    /// Render the error as a one-line summary plus its detail or cause
    /// chain.
    pub fn describe(&self) -> (r: String)
        ensures
            vstd::utf8::valid_utf8(template_error_lines(*self)) ==> vstd::utf8::encode_utf8(r@)
                == template_error_lines(*self),
    {
        let bytes = self.describe_bytes();
        crate::text::bytes_to_string_lossy(bytes.as_slice())
    }
}

/// The rendered form of a library-writing error.
pub open spec fn write_library_error_lines(e: WriteLibraryError) -> Seq<u8> {
    match e {
        WriteLibraryError::WriteAssets { detail } => {
            "could not write assets: ".spec_bytes() + vstd::utf8::encode_utf8(detail@)
        },
    }
}

impl WriteLibraryError {
    /// Render the error in bytes: a one-line summary plus its detail.
    pub fn describe_bytes(&self) -> (r: Vec<u8>)
        ensures
            r@ == write_library_error_lines(*self),
    {
        let mut out: Vec<u8> = Vec::new();
        match self {
            WriteLibraryError::WriteAssets { detail } => {
                append_all(&mut out, "could not write assets: ".as_bytes());
                append_all(&mut out, detail.as_str().as_bytes());
            },
        }
        proof {
            assert(out@ =~= write_library_error_lines(*self));
        }
        out
    }

    /// Render the error as a one-line summary plus its detail.
    pub fn describe(&self) -> (r: String)
        ensures
            vstd::utf8::valid_utf8(write_library_error_lines(*self)) ==> vstd::utf8::encode_utf8(
                r@,
            ) == write_library_error_lines(*self),
    {
        let bytes = self.describe_bytes();
        crate::text::bytes_to_string_lossy(bytes.as_slice())
    }
}

/// The rendered form of a formatted-write error.
pub open spec fn write_formatted_error_lines(e: WriteFormattedError) -> Seq<u8> {
    match e {
        WriteFormattedError::NoDeno => "deno is required to format the output".spec_bytes(),
        WriteFormattedError::FormatError { stderr } => {
            "writing formatted HTML failed:\n".spec_bytes() + vstd::utf8::encode_utf8(stderr@)
        },
        WriteFormattedError::IoError { detail } => {
            "could not speak to the formatter process: ".spec_bytes() + vstd::utf8::encode_utf8(
                detail@,
            )
        },
    }
}

impl WriteFormattedError {
    /// Render the error in bytes: a one-line summary plus its detail.
    pub fn describe_bytes(&self) -> (r: Vec<u8>)
        ensures
            r@ == write_formatted_error_lines(*self),
    {
        let mut out: Vec<u8> = Vec::new();
        match self {
            WriteFormattedError::NoDeno => {
                append_all(&mut out, "deno is required to format the output".as_bytes());
            },
            WriteFormattedError::FormatError { stderr } => {
                append_all(&mut out, "writing formatted HTML failed:\n".as_bytes());
                append_all(&mut out, stderr.as_str().as_bytes());
            },
            WriteFormattedError::IoError { detail } => {
                append_all(&mut out, "could not speak to the formatter process: ".as_bytes());
                append_all(&mut out, detail.as_str().as_bytes());
            },
        }
        proof {
            assert(out@ =~= write_formatted_error_lines(*self));
        }
        out
    }

    /// Render the error as a one-line summary plus its detail.
    pub fn describe(&self) -> (r: String)
        ensures
            vstd::utf8::valid_utf8(write_formatted_error_lines(*self)) ==> vstd::utf8::encode_utf8(
                r@,
            ) == write_formatted_error_lines(*self),
    {
        let bytes = self.describe_bytes();
        crate::text::bytes_to_string_lossy(bytes.as_slice())
    }
}

/// The rendered form of a watch error: a one-line summary plus its cause.
pub open spec fn watch_error_lines(e: WatchError) -> Seq<u8> {
    match e {
        WatchError::WriteLibrary { source } => {
            "could not write library:\n".spec_bytes() + write_library_error_lines(source)
        },
        WatchError::CreateWatcher { detail } => {
            "could not create file system watcher: ".spec_bytes() + vstd::utf8::encode_utf8(
                detail@,
            )
        },
        WatchError::WatcherError { detail } => {
            "watcher returned an error event: ".spec_bytes() + vstd::utf8::encode_utf8(detail@)
        },
    }
}

impl WatchError {
    /// Render the error in bytes: a one-line summary plus its cause.
    pub fn describe_bytes(&self) -> (r: Vec<u8>)
        ensures
            r@ == watch_error_lines(*self),
    {
        let mut out: Vec<u8> = Vec::new();
        match self {
            WatchError::WriteLibrary { source } => {
                append_all(&mut out, "could not write library:\n".as_bytes());
                let detail = source.describe_bytes();
                append_all(&mut out, detail.as_slice());
            },
            WatchError::CreateWatcher { detail } => {
                append_all(&mut out, "could not create file system watcher: ".as_bytes());
                append_all(&mut out, detail.as_str().as_bytes());
            },
            WatchError::WatcherError { detail } => {
                append_all(&mut out, "watcher returned an error event: ".as_bytes());
                append_all(&mut out, detail.as_str().as_bytes());
            },
        }
        proof {
            assert(out@ =~= watch_error_lines(*self));
        }
        out
    }

    /// Render the error as a one-line summary plus its cause.
    pub fn describe(&self) -> (r: String)
        ensures
            vstd::utf8::valid_utf8(watch_error_lines(*self)) ==> vstd::utf8::encode_utf8(r@)
                == watch_error_lines(*self),
    {
        let bytes = self.describe_bytes();
        crate::text::bytes_to_string_lossy(bytes.as_slice())
    }
}

/// The rendered form of a subcommand error: a one-line summary plus its
/// cause chain.
pub open spec fn command_error_lines(e: CommandError) -> Seq<u8> {
    match e {
        CommandError::List { detail } => {
            "listing htmplates failed: ".spec_bytes() + vstd::utf8::encode_utf8(detail@)
        },
        CommandError::Assets { source } => {
            "writing assets failed:\n".spec_bytes() + write_library_error_lines(source)
        },
        CommandError::Template { source } => {
            "templating HTML failed:\n".spec_bytes() + template_error_lines(source)
        },
        CommandError::Bundle { source } => {
            "failed to bundle script:\n".spec_bytes() + bundle_error_lines(source)
        },
        CommandError::Watch { source } => {
            "failed while watching:\n".spec_bytes() + watch_error_lines(source)
        },
    }
}

impl CommandError {
    /// Render the error in bytes: a one-line summary plus its cause chain.
    pub fn describe_bytes(&self) -> (r: Vec<u8>)
        ensures
            r@ == command_error_lines(*self),
    {
        let mut out: Vec<u8> = Vec::new();
        match self {
            CommandError::List { detail } => {
                append_all(&mut out, "listing htmplates failed: ".as_bytes());
                append_all(&mut out, detail.as_str().as_bytes());
            },
            CommandError::Assets { source } => {
                append_all(&mut out, "writing assets failed:\n".as_bytes());
                let detail = source.describe_bytes();
                append_all(&mut out, detail.as_slice());
            },
            CommandError::Template { source } => {
                append_all(&mut out, "templating HTML failed:\n".as_bytes());
                let detail = source.describe_bytes();
                append_all(&mut out, detail.as_slice());
            },
            CommandError::Bundle { source } => {
                append_all(&mut out, "failed to bundle script:\n".as_bytes());
                let detail = source.describe_bytes();
                append_all(&mut out, detail.as_slice());
            },
            CommandError::Watch { source } => {
                append_all(&mut out, "failed while watching:\n".as_bytes());
                let detail = source.describe_bytes();
                append_all(&mut out, detail.as_slice());
            },
        }
        proof {
            assert(out@ =~= command_error_lines(*self));
        }
        out
    }

    /// Render the error as a one-line summary plus its cause chain.
    pub fn describe(&self) -> (r: String)
        ensures
            vstd::utf8::valid_utf8(command_error_lines(*self)) ==> vstd::utf8::encode_utf8(r@)
                == command_error_lines(*self),
    {
        let bytes = self.describe_bytes();
        crate::text::bytes_to_string_lossy(bytes.as_slice())
    }
}

} // verus!
