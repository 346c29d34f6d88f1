//! What is decided around a run of the compiler: which files it is given,
//! what a request of the compiler for a file is answered with, and what
//! the pages that come back are turned into.
//!
//! The compiler itself is run by the application. It hands these functions
//! plain values and acts on what they return.

use vstd::prelude::*;
use vstd::string::*;
use crate::assets::{
    lemma_main_template_is_held, load_string_asset, package_file, resolve_binary_asset,
    resolve_package_file, resolved, AssetRegistry, PackageSpec,
};
use crate::text::{
    decimal, joined, push_decimal, push_joined, replace_all, replaced, str_ends_with, str_eq,
    texts, ends_with,
};

verus! {

/// The formats that a document can be written in.
#[derive(Debug, Clone, Copy, PartialEq, Eq, Structural)]
pub enum OutputFormat {
    /// One image for each page.
    Svg,
    /// One file for the whole document.
    Pdf,
}

impl Default for OutputFormat {
    fn default() -> (r: Self)
        ensures
            r == OutputFormat::Svg,
    {
        OutputFormat::Svg
    }
}

/// How a document is to be rendered.
#[derive(Debug, Clone, Copy)]
pub struct RenderConfig {
    pub format: OutputFormat,
}

impl Default for RenderConfig {
    fn default() -> (r: Self)
        ensures
            r.format == OutputFormat::Svg,
    {
        RenderConfig { format: OutputFormat::Svg }
    }
}

/// Why a document could not be rendered.
#[derive(Debug, Clone, PartialEq)]
pub enum TypstWrapperError {
    Compilation(String),
    Font(String),
    OutputFormat(String),
    FileNotFound(String),
    Io(String),
}

/// The mathematical value of a [`TypstWrapperError`].
pub enum TypstWrapperErrorView {
    Compilation(Seq<char>),
    Font(Seq<char>),
    OutputFormat(Seq<char>),
    FileNotFound(Seq<char>),
    Io(Seq<char>),
}

impl View for TypstWrapperError {
    type V = TypstWrapperErrorView;

    open spec fn view(&self) -> TypstWrapperErrorView {
        match self {
            TypstWrapperError::Compilation(m) => TypstWrapperErrorView::Compilation(m@),
            TypstWrapperError::Font(m) => TypstWrapperErrorView::Font(m@),
            TypstWrapperError::OutputFormat(m) => TypstWrapperErrorView::OutputFormat(m@),
            TypstWrapperError::FileNotFound(m) => TypstWrapperErrorView::FileNotFound(m@),
            TypstWrapperError::Io(m) => TypstWrapperErrorView::Io(m@),
        }
    }
}

/// An error in words.
pub open spec fn render_error_message(e: TypstWrapperErrorView) -> Seq<char> {
    match e {
        TypstWrapperErrorView::Compilation(m) => "Compilation failed: "@ + m,
        TypstWrapperErrorView::Font(m) => "Font loading error: "@ + m,
        TypstWrapperErrorView::OutputFormat(m) => "Output format error: "@ + m,
        TypstWrapperErrorView::FileNotFound(m) => "File not found: "@ + m,
        TypstWrapperErrorView::Io(m) => "IO error: "@ + m,
    }
}

impl TypstWrapperError {
    /// The error in words.
    pub fn message(&self) -> (r: String)
        ensures
            r@ == render_error_message(self@),
    {
        let (prefix, detail) = match self {
            TypstWrapperError::Compilation(m) => ("Compilation failed: ", m),
            TypstWrapperError::Font(m) => ("Font loading error: ", m),
            TypstWrapperError::OutputFormat(m) => ("Output format error: ", m),
            TypstWrapperError::FileNotFound(m) => ("File not found: ", m),
            TypstWrapperError::Io(m) => ("IO error: ", m),
        };
        let mut out = String::from_str(prefix);
        out.append(detail.as_str());
        out
    }
}

/// A file that exists only for one run of the compiler.
#[derive(Debug, Clone)]
pub struct VirtualFile {
    pub path: String,
    pub text: String,
}

/// The two files that a form is rendered from.
#[derive(Debug, Clone)]
pub struct FormFiles {
    /// The form as JSON.
    pub input: VirtualFile,
    /// The template that loads it: the main file of the run.
    pub main: VirtualFile,
}

/// The name of the input file of a run.
pub open spec fn input_name(stamp: nat) -> Seq<char> {
    "input-"@ + decimal(stamp) + ".json"@
}

/// The path of the input file of a run.
pub open spec fn input_path(stamp: nat) -> Seq<char> {
    "memo-loader/"@ + input_name(stamp)
}

/// The path of the main file of a run.
pub open spec fn main_path(stamp: nat) -> Seq<char> {
    "memo-loader/main-"@ + decimal(stamp) + ".typ"@
}

/// The template with the name of its input file replaced by that of a run.
pub open spec fn main_text(template: Seq<char>, stamp: nat) -> Seq<char> {
    replaced(
        template,
        "#let input = json(\"input.json\")"@,
        "#let input = json(\""@ + input_name(stamp) + "\")"@,
    )
}

/// How many faces of a font file are tried: one of a single font, up to
/// ten of a collection, none of any other file.
pub open spec fn faces_to_try(path: Seq<char>) -> nat {
    if ends_with(path, ".ttf"@) || ends_with(path, ".otf"@) {
        1
    } else if ends_with(path, ".ttc"@) {
        10
    } else {
        0
    }
}

/// What a request of the compiler for a file is answered with: the asset at
/// the path, else the file of the package that the request names.
pub open spec fn file_bytes(
    registry: AssetRegistry,
    package: Option<PackageSpec>,
    path: Seq<char>,
) -> Option<Seq<u8>> {
    match resolved(registry.binaries(), path) {
        Some(bytes) => Some(bytes),
        None => match package {
            Some(spec) => match package_file(registry.strings(), spec, path) {
                Some(source) => Some(vstd::utf8::encode_utf8(source)),
                None => None,
            },
            None => None,
        },
    }
}

/// The main template of the memo loader, which every registry holds.
fn template_of(registry: &AssetRegistry) -> (r: &'static str)
    ensures
        r@ == registry.payloads().memo_loader_main@,
{
    match load_string_asset(registry, "memo-loader-main") {
        Some(asset) => {
            proof {
                lemma_main_template_is_held(registry.payloads());
            }
            asset.content
        },
        None => {
            proof {
                lemma_main_template_is_held(registry.payloads());
            }
            vstd::pervasive::unreached()
        },
    }
}

/// Stateless; kept for the sake of its constructor.
#[derive(Debug)]
pub struct TypstWrapper {}

impl TypstWrapper {
    /// A wrapper. It holds nothing.
    pub fn new() -> Self {
        TypstWrapper {  }
    }

    /// The main file of a run that renders this markup.
    pub fn prepare_markup(markup: &str) -> (r: VirtualFile)
        ensures
            r.path@ == "main.typ"@,
            r.text@ == markup@,
    {
        VirtualFile { path: String::from_str("main.typ"), text: String::from_str(markup) }
    }

    /// The files of a run that renders this form: the form itself, and the
    /// template of the memo loader with the name of its input file set to
    /// that of this run. The stamp tells the files of one run from those of
    /// another.
    pub fn prepare_form(registry: &AssetRegistry, json_input: &str, stamp: u128) -> (r: FormFiles)
        ensures
            r.input.path@ == input_path(stamp as nat),
            r.input.text@ == json_input@,
            r.main.path@ == main_path(stamp as nat),
            r.main.text@ == main_text(registry.payloads().memo_loader_main@, stamp as nat),
    {
        let mut name = String::from_str("input-");
        push_decimal(&mut name, stamp);
        name.append(".json");
        let mut path = String::from_str("memo-loader/");
        path.append(name.as_str());
        let mut import = String::from_str("#let input = json(\"");
        import.append(name.as_str());
        import.append("\")");
        let template = template_of(registry);
        let text = replace_all(template, "#let input = json(\"input.json\")", import.as_str());
        let mut main = String::from_str("memo-loader/main-");
        push_decimal(&mut main, stamp);
        main.append(".typ");
        FormFiles {
            input: VirtualFile { path, text: String::from_str(json_input) },
            main: VirtualFile { path: main, text },
        }
    }

    /// The error of a compilation that failed with these messages.
    pub fn compilation_failed(messages: &Vec<String>) -> (r: TypstWrapperError)
        ensures
            r@ == TypstWrapperErrorView::Compilation(joined(texts(messages@), "; "@)),
    {
        let mut out = String::new();
        assert(out@ + joined(texts(messages@), "; "@) =~= joined(texts(messages@), "; "@));
        push_joined(&mut out, messages, "; ");
        TypstWrapperError::Compilation(out)
    }

    /// The outcome of a run that was to give images: its pages, or an error
    /// where it has none.
    pub fn svg_outcome(pages: Vec<Vec<u8>>) -> (r: Result<Vec<Vec<u8>>, TypstWrapperError>)
        ensures
            pages@.len() > 0 ==> r == Ok::<Vec<Vec<u8>>, TypstWrapperError>(pages),
            pages@.len() == 0 ==> r is Err && r->Err_0@ == TypstWrapperErrorView::Compilation(
                "No pages to render"@,
            ),
    {
        if pages.len() == 0 {
            Err(TypstWrapperError::Compilation(String::from_str("No pages to render")))
        } else {
            Ok(pages)
        }
    }

    /// The outcome of a run that was to give one file: that file alone, or
    /// the error of writing it.
    pub fn pdf_outcome(written: Result<Vec<u8>, String>) -> (r: Result<
        Vec<Vec<u8>>,
        TypstWrapperError,
    >)
        ensures
            match written {
                Ok(file) => r is Ok && r->Ok_0@ == seq![file],
                Err(reason) => r is Err && r->Err_0@ == TypstWrapperErrorView::Compilation(
                    "PDF generation failed: "@ + reason@,
                ),
            },
    {
        match written {
            Ok(file) => {
                let mut files: Vec<Vec<u8>> = Vec::new();
                files.push(file);
                Ok(files)
            },
            Err(reason) => {
                let mut message = String::from_str("PDF generation failed: ");
                message.append(reason.as_str());
                Err(TypstWrapperError::Compilation(message))
            },
        }
    }

    /// How many faces of a font file are tried.
    pub fn font_faces(path: &str) -> (r: u32)
        ensures
            r == faces_to_try(path@),
    {
        if str_ends_with(path, ".ttf") || str_ends_with(path, ".otf") {
            1
        } else if str_ends_with(path, ".ttc") {
            10
        } else {
            0
        }
    }

    /// The source of a file of a package, for a request of the compiler
    /// that names the package.
    pub fn package_source(registry: &AssetRegistry, package: Option<&PackageSpec>, path: &str) -> (r:
        Option<&'static str>)
        ensures
            match package {
                Some(spec) => match package_file(registry.strings(), *spec, path@) {
                    Some(source) => r is Some && r->Some_0@ == source,
                    None => r is None,
                },
                None => r is None,
            },
    {
        match package {
            Some(spec) => resolve_package_file(registry, spec, path),
            None => None,
        }
    }

    /// The bytes of a file, for a request of the compiler.
    pub fn file_content(registry: &AssetRegistry, package: Option<&PackageSpec>, path: &str) -> (r:
        Option<Vec<u8>>)
        ensures
            match file_bytes(
                *registry,
                match package {
                    Some(spec) => Some(*spec),
                    None => None,
                },
                path@,
            ) {
                Some(bytes) => r is Some && r->Some_0@ == bytes,
                None => r is None,
            },
    {
        match resolve_binary_asset(registry, path) {
            Some(bytes) => Some(vstd::slice::slice_to_vec(bytes)),
            None => match package {
                Some(spec) => match resolve_package_file(registry, spec, path) {
                    Some(source) => Some(source.as_bytes_vec()),
                    None => None,
                },
                None => None,
            },
        }
    }

    /// The date that the compiler is told: the first day of 2024.
    pub fn today() -> (r: (i32, u8, u8))
        ensures
            r == (2024i32, 1u8, 1u8),
    {
        (2024, 1, 1)
    }

    /// The format that a caller names: `pdf` for a file, anything else, or
    /// nothing, for images.
    pub fn format_named(name: Option<&str>) -> (r: OutputFormat)
        ensures
            r == match name {
                Some(n) => if n@ == "pdf"@ {
                    OutputFormat::Pdf
                } else {
                    OutputFormat::Svg
                },
                None => OutputFormat::Svg,
            },
    {
        match name {
            Some(n) => if str_eq(n, "pdf") {
                OutputFormat::Pdf
            } else {
                OutputFormat::Svg
            },
            None => OutputFormat::Svg,
        }
    }

    /// The format that a caller names for a form: `pdf` or `PDF` for a
    /// file, anything else, or nothing, for images.
    pub fn form_format_named(name: Option<&str>) -> (r: OutputFormat)
        ensures
            r == match name {
                Some(n) => if n@ == "pdf"@ || n@ == "PDF"@ {
                    OutputFormat::Pdf
                } else {
                    OutputFormat::Svg
                },
                None => OutputFormat::Svg,
            },
    {
        match name {
            Some(n) => if str_eq(n, "pdf") || str_eq(n, "PDF") {
                OutputFormat::Pdf
            } else {
                OutputFormat::Svg
            },
            None => OutputFormat::Svg,
        }
    }

    /// The first of the pages, which is what a caller is given.
    pub fn first_page(pages: Vec<Vec<u8>>) -> (r: Option<Vec<u8>>)
        ensures
            match r {
                Some(page) => pages@.len() > 0 && page@ == pages@[0]@,
                None => pages@.len() == 0,
            },
    {
        let mut pages = pages;
        if pages.len() == 0 {
            None
        } else {
            Some(pages.swap_remove(0))
        }
    }
}

impl Default for TypstWrapper {
    fn default() -> Self {
        TypstWrapper::new()
    }
}

} // verus!
