use render_engine::assets::{AssetRegistry, EmbeddedPayloads, PackageSpec, PackageVersion};
use render_engine::typst_wrapper::{
    OutputFormat, RenderConfig, TypstWrapper, TypstWrapperError,
};

fn sample_registry() -> AssetRegistry {
    AssetRegistry::new(EmbeddedPayloads {
        memo_loader_main: "#let input = json(\"input.json\")\n#input.subject\n",
        package_manifest: "[package]\n",
        package_lib: "lib",
        package_utils: "utils",
        dod_seal: b"GIF89a-seal",
        arial: b"font-arial",
        times: b"font-times",
        times_collection: b"font-times-collection",
        copperplate: b"font-copperplate",
    })
}

#[test]
fn basic_test() {
    assert_eq!(2 + 2, 4);
}

#[test]
fn test_wrapper_creation() {
    let wrapper = TypstWrapper::new();
    assert!(std::mem::size_of_val(&wrapper) == 0);
}

#[test]
fn default_format_is_svg() {
    assert_eq!(OutputFormat::default(), OutputFormat::Svg);
    assert_eq!(RenderConfig::default().format, OutputFormat::Svg);
}

#[test]
fn markup_is_the_main_file() {
    let file = TypstWrapper::prepare_markup("= Title");
    assert_eq!(file.path, "main.typ");
    assert_eq!(file.text, "= Title");
}

#[test]
fn form_files_carry_the_stamp() {
    let files = TypstWrapper::prepare_form(&sample_registry(), "{\"subject\":\"S\"}", 1700000000123);
    assert_eq!(files.input.path, "memo-loader/input-1700000000123.json");
    assert_eq!(files.input.text, "{\"subject\":\"S\"}");
    assert_eq!(files.main.path, "memo-loader/main-1700000000123.typ");
    assert_eq!(files.main.text, "#let input = json(\"input-1700000000123.json\")\n#input.subject\n");
}

#[test]
fn form_files_of_the_greatest_stamp() {
    let files = TypstWrapper::prepare_form(&sample_registry(), "{}", u128::MAX);
    assert_eq!(files.input.path, "memo-loader/input-340282366920938463463374607431768211455.json");
    assert_eq!(files.main.path, "memo-loader/main-340282366920938463463374607431768211455.typ");
}

#[test]
fn form_files_of_stamp_zero() {
    let files = TypstWrapper::prepare_form(&sample_registry(), "{}", 0);
    assert_eq!(files.input.path, "memo-loader/input-0.json");
    assert_eq!(files.main.path, "memo-loader/main-0.typ");
}

#[test]
fn compilation_messages_are_joined() {
    let error = TypstWrapper::compilation_failed(&vec!["first".to_string(), "second".to_string()]);
    assert_eq!(error, TypstWrapperError::Compilation("first; second".to_string()));
    assert_eq!(error.message(), "Compilation failed: first; second");
    assert_eq!(
        TypstWrapper::compilation_failed(&vec![]),
        TypstWrapperError::Compilation(String::new())
    );
}

#[test]
fn svg_outcome_needs_a_page() {
    assert_eq!(
        TypstWrapper::svg_outcome(vec![]),
        Err(TypstWrapperError::Compilation("No pages to render".to_string()))
    );
    assert_eq!(
        TypstWrapper::svg_outcome(vec![vec![1, 2], vec![3]]),
        Ok(vec![vec![1, 2], vec![3]])
    );
}

#[test]
fn pdf_outcome_is_one_file() {
    assert_eq!(TypstWrapper::pdf_outcome(Ok(vec![37, 80, 68, 70])), Ok(vec![vec![37, 80, 68, 70]]));
    assert_eq!(
        TypstWrapper::pdf_outcome(Err("bad font".to_string())),
        Err(TypstWrapperError::Compilation("PDF generation failed: bad font".to_string()))
    );
}

#[test]
fn font_faces_depend_on_the_kind_of_file() {
    assert_eq!(TypstWrapper::font_faces("memo-loader/assets/arial.ttf"), 1);
    assert_eq!(TypstWrapper::font_faces("memo-loader/assets/CopperplateCC-Heavy.otf"), 1);
    assert_eq!(TypstWrapper::font_faces("memo-loader/assets/Times.ttc"), 10);
    assert_eq!(TypstWrapper::font_faces("memo-loader/assets/dod_seal.gif"), 0);
    assert_eq!(TypstWrapper::font_faces("ttf"), 0);
}

#[test]
fn file_requests_are_answered_from_the_registry() {
    let registry = sample_registry();
    let spec = PackageSpec {
        namespace: "preview".to_string(),
        name: "tonguetoquill-usaf-memo".to_string(),
        version: PackageVersion { major: 0, minor: 1, patch: 0 },
    };
    assert_eq!(
        TypstWrapper::file_content(&registry, None, "assets/dod_seal.gif"),
        Some(b"GIF89a-seal".to_vec())
    );
    assert_eq!(TypstWrapper::file_content(&registry, Some(&spec), "src/lib.typ"), Some(b"lib".to_vec()));
    assert_eq!(TypstWrapper::file_content(&registry, None, "src/lib.typ"), None);
    assert_eq!(TypstWrapper::package_source(&registry, Some(&spec), "src/utils.typ"), Some("utils"));
    assert_eq!(TypstWrapper::package_source(&registry, None, "src/utils.typ"), None);
    assert_eq!(TypstWrapper::package_source(&registry, Some(&spec), "main.typ"), None);
}

#[test]
fn today_is_fixed() {
    assert_eq!(TypstWrapper::today(), (2024, 1, 1));
}

#[test]
fn formats_are_named_by_callers() {
    assert_eq!(TypstWrapper::format_named(Some("pdf")), OutputFormat::Pdf);
    assert_eq!(TypstWrapper::format_named(Some("PDF")), OutputFormat::Svg);
    assert_eq!(TypstWrapper::format_named(Some("svg")), OutputFormat::Svg);
    assert_eq!(TypstWrapper::format_named(None), OutputFormat::Svg);
    assert_eq!(TypstWrapper::form_format_named(Some("pdf")), OutputFormat::Pdf);
    assert_eq!(TypstWrapper::form_format_named(Some("PDF")), OutputFormat::Pdf);
    assert_eq!(TypstWrapper::form_format_named(Some("Pdf")), OutputFormat::Svg);
    assert_eq!(TypstWrapper::form_format_named(None), OutputFormat::Svg);
}

#[test]
fn first_page_is_what_a_caller_gets() {
    assert_eq!(TypstWrapper::first_page(vec![vec![1], vec![2]]), Some(vec![1]));
    assert_eq!(TypstWrapper::first_page(vec![]), None);
}

#[test]
fn render_errors_name_their_kind() {
    assert_eq!(TypstWrapperError::Font("f".to_string()).message(), "Font loading error: f");
    assert_eq!(TypstWrapperError::OutputFormat("o".to_string()).message(), "Output format error: o");
    assert_eq!(TypstWrapperError::FileNotFound("n".to_string()).message(), "File not found: n");
    assert_eq!(TypstWrapperError::Io("i".to_string()).message(), "IO error: i");
}
