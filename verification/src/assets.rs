//! The registry of the assets that the compiler may ask for.
//!
//! A registry is built once, from the payloads that the application embeds,
//! and only read after that. It knows each asset by a key and by a
//! canonical path, and it knows the files of the one package that may be
//! imported.

use vstd::prelude::*;
use vstd::string::*;
use crate::text::{ends_with, last_path_segment, last_segment, str_ends_with, str_eq};

verus! {

/// A text asset and the path it was taken from.
#[derive(Debug, Clone, Copy)]
pub struct StringAsset {
    pub content: &'static str,
    pub path: &'static str,
}

/// A binary asset and the path it was taken from.
#[derive(Debug, Clone, Copy)]
pub struct BinaryAsset {
    pub content: &'static [u8],
    pub path: &'static str,
}

/// What loading a text asset gives.
#[derive(Debug, Clone, Copy)]
pub struct StringAssetResult {
    pub content: &'static str,
    pub path: &'static str,
}

/// What loading a binary asset gives.
#[derive(Debug, Clone, Copy)]
pub struct BinaryAssetResult {
    pub content: &'static [u8],
    pub path: &'static str,
}

/// The payloads that the application embeds.
#[derive(Debug, Clone, Copy)]
pub struct EmbeddedPayloads {
    /// The main template of the memo loader.
    pub memo_loader_main: &'static str,
    /// The manifest of the memo package.
    pub package_manifest: &'static str,
    /// The library source of the memo package.
    pub package_lib: &'static str,
    /// The utilities source of the memo package.
    pub package_utils: &'static str,
    pub dod_seal: &'static [u8],
    pub arial: &'static [u8],
    pub times: &'static [u8],
    pub times_collection: &'static [u8],
    pub copperplate: &'static [u8],
}

/// A text asset under its key.
pub struct StringEntry {
    pub key: Seq<char>,
    pub path: Seq<char>,
    pub content: Seq<char>,
}

/// A binary asset under its key.
pub struct BinaryEntry {
    pub key: Seq<char>,
    pub path: Seq<char>,
    pub content: Seq<u8>,
}

/// The text assets of a registry that is built from these payloads.
pub open spec fn string_catalogue(payloads: EmbeddedPayloads) -> Seq<StringEntry> {
    seq![
        StringEntry {
            key: "memo-loader-main"@,
            path: "../memo-loader/main.typ"@,
            content: payloads.memo_loader_main@,
        },
        StringEntry {
            key: "package-typst-toml"@,
            path: "../tonguetoquill-usaf-memo/typst.toml"@,
            content: payloads.package_manifest@,
        },
        StringEntry {
            key: "package-lib"@,
            path: "../tonguetoquill-usaf-memo/src/lib.typ"@,
            content: payloads.package_lib@,
        },
        StringEntry {
            key: "package-utils"@,
            path: "../tonguetoquill-usaf-memo/src/utils.typ"@,
            content: payloads.package_utils@,
        },
    ]
}

/// The binary assets of a registry that is built from these payloads.
pub open spec fn binary_catalogue(payloads: EmbeddedPayloads) -> Seq<BinaryEntry> {
    seq![
        BinaryEntry {
            key: "dod_seal.gif"@,
            path: "memo-loader/assets/dod_seal.gif"@,
            content: payloads.dod_seal@,
        },
        BinaryEntry {
            key: "arial.ttf"@,
            path: "memo-loader/assets/arial.ttf"@,
            content: payloads.arial@,
        },
        BinaryEntry {
            key: "times.ttf"@,
            path: "memo-loader/assets/times.ttf"@,
            content: payloads.times@,
        },
        BinaryEntry {
            key: "Times.ttc"@,
            path: "memo-loader/assets/Times.ttc"@,
            content: payloads.times_collection@,
        },
        BinaryEntry {
            key: "CopperplateCC-Heavy.otf"@,
            path: "memo-loader/assets/CopperplateCC-Heavy.otf"@,
            content: payloads.copperplate@,
        },
    ]
}

/// The keys of the fonts, in the order in which they are handed out.
pub open spec fn font_keys() -> Seq<Seq<char>> {
    seq!["arial.ttf"@, "times.ttf"@, "Times.ttc"@, "CopperplateCC-Heavy.otf"@]
}

/// The first of the items that is wanted.
pub open spec fn first_match<T>(items: Seq<T>, wanted: spec_fn(T) -> bool) -> Option<T>
    decreases items.len(),
{
    if items.len() == 0 {
        None
    } else {
        match first_match(items.drop_last(), wanted) {
            Some(found) => Some(found),
            None => if wanted(items.last()) {
                Some(items.last())
            } else {
                None
            },
        }
    }
}

/// What is found among the first `n` items is what is found among all.
pub proof fn lemma_first_match_prefix<T>(items: Seq<T>, wanted: spec_fn(T) -> bool, n: int)
    requires
        0 <= n <= items.len(),
        first_match(items.take(n), wanted) is Some,
    ensures
        first_match(items, wanted) == first_match(items.take(n), wanted),
    decreases items.len(),
{
    if n < items.len() {
        assert(items.drop_last().take(n) == items.take(n));
        lemma_first_match_prefix(items.drop_last(), wanted, n);
    } else {
        assert(items.take(n) == items);
    }
}

/// Nothing is found exactly where no item is wanted.
pub proof fn lemma_first_match_none<T>(items: Seq<T>, wanted: spec_fn(T) -> bool)
    ensures
        first_match(items, wanted) is None <==> forall|i: int|
            0 <= i < items.len() ==> !wanted(#[trigger] items[i]),
    decreases items.len(),
{
    if items.len() > 0 {
        let front = items.drop_last();
        lemma_first_match_none(front, wanted);
        if first_match(items, wanted) is None {
            assert forall|i: int| 0 <= i < items.len() implies !wanted(#[trigger] items[i]) by {
                if i < front.len() {
                    assert(items[i] == front[i]);
                }
            }
        }
        if forall|i: int| 0 <= i < items.len() ==> !wanted(#[trigger] items[i]) {
            assert forall|i: int| 0 <= i < front.len() implies !wanted(#[trigger] front[i]) by {
                assert(front[i] == items[i]);
            }
            assert(!wanted(items[items.len() - 1]));
        }
    }
}

/// The item at `i` is the one that is found where it is wanted and none
/// before it is.
pub proof fn lemma_first_match_at<T>(items: Seq<T>, wanted: spec_fn(T) -> bool, i: int)
    requires
        0 <= i < items.len(),
        wanted(items[i]),
        forall|j: int| 0 <= j < i ==> !wanted(#[trigger] items[j]),
    ensures
        first_match(items, wanted) == Some(items[i]),
{
    let front = items.take(i);
    assert forall|j: int| 0 <= j < front.len() implies !wanted(#[trigger] front[j]) by {
        assert(front[j] == items[j]);
    }
    lemma_first_match_none(front, wanted);
    assert(items.take(i + 1).drop_last() == front);
    assert(items.take(i + 1).last() == items[i]);
    lemma_first_match_prefix(items, wanted, i + 1);
}

/// The text asset under a key.
pub open spec fn string_under(entries: Seq<StringEntry>, key: Seq<char>) -> Option<StringEntry> {
    first_match(entries, |e: StringEntry| e.key == key)
}

/// The binary asset under a key.
pub open spec fn binary_under(entries: Seq<BinaryEntry>, key: Seq<char>) -> Option<BinaryEntry> {
    first_match(entries, |e: BinaryEntry| e.key == key)
}

/// Whether a request for `requested` may be answered with the asset at
/// `canonical`: the two end in the same path segment, and the canonical
/// path ends with the one that is asked for.
pub open spec fn loosely_matches(canonical: Seq<char>, requested: Seq<char>) -> bool {
    last_segment(requested) == last_segment(canonical) && ends_with(canonical, requested)
}

/// The bytes that a path resolves to: those of the first asset with just
/// that canonical path; where there is none, those of the first asset whose
/// canonical path matches loosely.
pub open spec fn resolved(entries: Seq<BinaryEntry>, path: Seq<char>) -> Option<Seq<u8>> {
    match first_match(entries, |e: BinaryEntry| e.path == path) {
        Some(e) => Some(e.content),
        None => match first_match(entries, |e: BinaryEntry| loosely_matches(e.path, path)) {
            Some(e) => Some(e.content),
            None => None,
        },
    }
}

/// The assets under these keys, in the order of the keys; a key that names
/// no asset gives none.
pub open spec fn collected(entries: Seq<BinaryEntry>, keys: Seq<Seq<char>>) -> Seq<BinaryEntry>
    decreases keys.len(),
{
    if keys.len() == 0 {
        Seq::empty()
    } else {
        let before = collected(entries, keys.drop_last());
        match binary_under(entries, keys.last()) {
            Some(e) => before.push(e),
            None => before,
        }
    }
}

/// Whether no two of the entries share a path.
pub open spec fn distinct_paths(entries: Seq<BinaryEntry>) -> bool {
    forall|i: int, j: int|
        0 <= i < entries.len() && 0 <= j < entries.len() && i != j ==> (#[trigger] entries[i]).path
            != (#[trigger] entries[j]).path
}

/// Where no two assets share a path, the canonical path of an asset
/// resolves to the bytes of that asset.
pub proof fn lemma_canonical_path_resolves(entries: Seq<BinaryEntry>, i: int)
    requires
        distinct_paths(entries),
        0 <= i < entries.len(),
    ensures
        resolved(entries, entries[i].path) == Some(entries[i].content),
{
    let path = entries[i].path;
    let wanted = |e: BinaryEntry| e.path == path;
    assert forall|j: int| 0 <= j < i implies !wanted(#[trigger] entries[j]) by {
        assert(entries[j].path != entries[i].path);
    }
    lemma_first_match_at(entries, wanted, i);
}

/// A path resolves to nothing exactly where no asset has it as its
/// canonical path and none matches it loosely.
pub proof fn lemma_unrelated_path_is_absent(entries: Seq<BinaryEntry>, path: Seq<char>)
    ensures
        resolved(entries, path) is None <==> forall|i: int|
            0 <= i < entries.len() ==> (#[trigger] entries[i]).path != path && !loosely_matches(
                entries[i].path,
                path,
            ),
{
    let exact = |e: BinaryEntry| e.path == path;
    let loose = |e: BinaryEntry| loosely_matches(e.path, path);
    lemma_first_match_none(entries, exact);
    lemma_first_match_none(entries, loose);
    if resolved(entries, path) is None {
        assert forall|i: int| 0 <= i < entries.len() implies (#[trigger] entries[i]).path != path
            && !loosely_matches(entries[i].path, path) by {
            assert(!exact(entries[i]));
            assert(!loose(entries[i]));
        }
    }
    if forall|i: int|
        0 <= i < entries.len() ==> (#[trigger] entries[i]).path != path && !loosely_matches(
            entries[i].path,
            path,
        ) {
        assert forall|i: int| 0 <= i < entries.len() implies !exact(#[trigger] entries[i]) by {
            assert(entries[i].path != path);
        }
        assert forall|i: int| 0 <= i < entries.len() implies !loose(#[trigger] entries[i]) by {
            assert(entries[i].path != path);
        }
    }
}

/// The main template of the memo loader stands under its key in every
/// registry.
pub proof fn lemma_main_template_is_held(payloads: EmbeddedPayloads)
    ensures
        string_under(string_catalogue(payloads), "memo-loader-main"@) == Some(
            string_catalogue(payloads)[0],
        ),
{
    let wanted = |e: StringEntry| e.key == "memo-loader-main"@;
    lemma_first_match_at(string_catalogue(payloads), wanted, 0);
}

/// No two binary assets of a registry share a canonical path.
pub proof fn lemma_catalogue_paths_distinct(payloads: EmbeddedPayloads)
    ensures
        distinct_paths(binary_catalogue(payloads)),
{
    reveal_strlit("memo-loader/assets/dod_seal.gif");
    reveal_strlit("memo-loader/assets/arial.ttf");
    reveal_strlit("memo-loader/assets/times.ttf");
    reveal_strlit("memo-loader/assets/Times.ttc");
    reveal_strlit("memo-loader/assets/CopperplateCC-Heavy.otf");
    let entries = binary_catalogue(payloads);
    assert(entries[1].path[19] == 'a');
    assert(entries[2].path[19] == 't');
    assert(entries[3].path[19] == 'T');
    assert(entries[0].path.len() == 31);
    assert(entries[1].path.len() == 28);
    assert(entries[4].path.len() == 42);
}

/// The fonts of a registry are its four font files, in the order of
/// [`font_keys`].
pub proof fn lemma_catalogue_fonts(payloads: EmbeddedPayloads)
    ensures
        collected(binary_catalogue(payloads), font_keys()) == binary_catalogue(payloads).skip(1),
{
    reveal_strlit("dod_seal.gif");
    reveal_strlit("arial.ttf");
    reveal_strlit("times.ttf");
    reveal_strlit("Times.ttc");
    reveal_strlit("CopperplateCC-Heavy.otf");
    let entries = binary_catalogue(payloads);
    let keys = font_keys();
    assert(entries[1].key[0] == 'a');
    assert(entries[2].key[0] == 't');
    assert(entries[3].key[0] == 'T');
    assert(entries[0].key.len() == 12);
    assert(entries[1].key.len() == 9);
    assert(entries[4].key.len() == 23);
    assert forall|k: int| 0 <= k < 4 implies binary_under(entries, #[trigger] keys[k]) == Some(
        entries[k + 1],
    ) by {
        let wanted = |e: BinaryEntry| e.key == keys[k];
        assert(wanted(entries[k + 1]));
        assert forall|j: int| 0 <= j < k + 1 implies !wanted(#[trigger] entries[j]) by {
            assert(entries[j].key != keys[k]);
        }
        lemma_first_match_at(entries, wanted, k + 1);
    }
    assert(keys.take(4) == keys);
    assert(keys.take(4).drop_last() == keys.take(3));
    assert(keys.take(3).drop_last() == keys.take(2));
    assert(keys.take(2).drop_last() == keys.take(1));
    assert(keys.take(1).drop_last() == keys.take(0));
    assert(collected(entries, keys.take(0)) =~= entries.skip(1).take(0));
    assert(collected(entries, keys.take(1)) =~= entries.skip(1).take(1));
    assert(collected(entries, keys.take(2)) =~= entries.skip(1).take(2));
    assert(collected(entries, keys.take(3)) =~= entries.skip(1).take(3));
    assert(collected(entries, keys.take(4)) =~= entries.skip(1).take(4));
    assert(entries.skip(1).take(4) =~= entries.skip(1));
}

/// A text asset with its key.
struct KeyedString {
    key: &'static str,
    asset: StringAsset,
}

/// A binary asset with its key.
struct KeyedBinary {
    key: &'static str,
    asset: BinaryAsset,
}

impl View for KeyedString {
    type V = StringEntry;

    closed spec fn view(&self) -> StringEntry {
        StringEntry { key: self.key@, path: self.asset.path@, content: self.asset.content@ }
    }
}

impl View for KeyedBinary {
    type V = BinaryEntry;

    closed spec fn view(&self) -> BinaryEntry {
        BinaryEntry { key: self.key@, path: self.asset.path@, content: self.asset.content@ }
    }
}

/// The tables of assets, built once and only read after that.
pub struct AssetRegistry {
    payloads: EmbeddedPayloads,
    strings: Vec<KeyedString>,
    binaries: Vec<KeyedBinary>,
}

/// The identity of a package: where it comes from, its name and its
/// version.
#[derive(Debug, Clone)]
pub struct PackageSpec {
    pub namespace: String,
    pub name: String,
    pub version: PackageVersion,
}

/// The version of a package, written `major.minor.patch`.
#[derive(Debug, Clone, Copy, PartialEq, Eq, Structural)]
pub struct PackageVersion {
    pub major: u32,
    pub minor: u32,
    pub patch: u32,
}

/// Whether a package is the one whose files the registry holds:
/// `preview/tonguetoquill-usaf-memo`, version 0.1.0.
pub open spec fn is_memo_package(spec: PackageSpec) -> bool {
    spec.namespace@ == "preview"@ && spec.name@ == "tonguetoquill-usaf-memo"@ && spec.version
        == (PackageVersion { major: 0, minor: 1, patch: 0 })
}

/// The key of the text asset that holds a file of the memo package.
pub open spec fn package_file_key(path: Seq<char>) -> Option<Seq<char>> {
    if path == "typst.toml"@ {
        Some("package-typst-toml"@)
    } else if path == "src/lib.typ"@ {
        Some("package-lib"@)
    } else if path == "src/utils.typ"@ {
        Some("package-utils"@)
    } else {
        None
    }
}

/// The source of a file of a package: that of the asset which holds it,
/// for the memo package and one of its three files.
pub open spec fn package_file(entries: Seq<StringEntry>, spec: PackageSpec, path: Seq<char>) -> Option<
    Seq<char>,
> {
    if is_memo_package(spec) {
        match package_file_key(path) {
            Some(key) => match string_under(entries, key) {
                Some(e) => Some(e.content),
                None => None,
            },
            None => None,
        }
    } else {
        None
    }
}

impl AssetRegistry {
    /// The payloads that the registry was built from.
    pub closed spec fn payloads(&self) -> EmbeddedPayloads {
        self.payloads
    }

    /// The text assets, in the order in which they were registered.
    pub closed spec fn strings(&self) -> Seq<StringEntry> {
        Seq::new(self.strings@.len(), |i: int| self.strings@[i]@)
    }

    /// The binary assets, in the order in which they were registered.
    pub closed spec fn binaries(&self) -> Seq<BinaryEntry> {
        Seq::new(self.binaries@.len(), |i: int| self.binaries@[i]@)
    }

    #[verifier::type_invariant]
    closed spec fn holds_catalogue(&self) -> bool {
        self.strings() == string_catalogue(self.payloads) && self.binaries() == binary_catalogue(
            self.payloads,
        )
    }

    /// The registry of these payloads.
    pub fn new(payloads: EmbeddedPayloads) -> (r: Self)
        ensures
            r.payloads() == payloads,
            r.strings() == string_catalogue(payloads),
            r.binaries() == binary_catalogue(payloads),
    {
        let mut strings: Vec<KeyedString> = Vec::new();
        strings.push(
            KeyedString {
                key: "memo-loader-main",
                asset: StringAsset {
                    content: payloads.memo_loader_main,
                    path: "../memo-loader/main.typ",
                },
            },
        );
        strings.push(
            KeyedString {
                key: "package-typst-toml",
                asset: StringAsset {
                    content: payloads.package_manifest,
                    path: "../tonguetoquill-usaf-memo/typst.toml",
                },
            },
        );
        strings.push(
            KeyedString {
                key: "package-lib",
                asset: StringAsset {
                    content: payloads.package_lib,
                    path: "../tonguetoquill-usaf-memo/src/lib.typ",
                },
            },
        );
        strings.push(
            KeyedString {
                key: "package-utils",
                asset: StringAsset {
                    content: payloads.package_utils,
                    path: "../tonguetoquill-usaf-memo/src/utils.typ",
                },
            },
        );
        let mut binaries: Vec<KeyedBinary> = Vec::new();
        binaries.push(
            KeyedBinary {
                key: "dod_seal.gif",
                asset: BinaryAsset {
                    content: payloads.dod_seal,
                    path: "memo-loader/assets/dod_seal.gif",
                },
            },
        );
        binaries.push(
            KeyedBinary {
                key: "arial.ttf",
                asset: BinaryAsset { content: payloads.arial, path: "memo-loader/assets/arial.ttf" },
            },
        );
        binaries.push(
            KeyedBinary {
                key: "times.ttf",
                asset: BinaryAsset { content: payloads.times, path: "memo-loader/assets/times.ttf" },
            },
        );
        binaries.push(
            KeyedBinary {
                key: "Times.ttc",
                asset: BinaryAsset {
                    content: payloads.times_collection,
                    path: "memo-loader/assets/Times.ttc",
                },
            },
        );
        binaries.push(
            KeyedBinary {
                key: "CopperplateCC-Heavy.otf",
                asset: BinaryAsset {
                    content: payloads.copperplate,
                    path: "memo-loader/assets/CopperplateCC-Heavy.otf",
                },
            },
        );
        assert(Seq::new(strings@.len(), |i: int| strings@[i]@) =~= string_catalogue(payloads));
        assert(Seq::new(binaries@.len(), |i: int| binaries@[i]@) =~= binary_catalogue(payloads));
        AssetRegistry { payloads, strings, binaries }
    }
}

/// What a loaded text asset has of its entry.
pub open spec fn is_string_result(r: Option<StringAssetResult>, entry: Option<StringEntry>) -> bool {
    match entry {
        Some(e) => r is Some && r->Some_0.path@ == e.path && r->Some_0.content@ == e.content,
        None => r is None,
    }
}

/// What a loaded binary asset has of its entry.
pub open spec fn is_binary_result(r: Option<BinaryAssetResult>, entry: Option<BinaryEntry>) -> bool {
    match entry {
        Some(e) => r is Some && r->Some_0.path@ == e.path && r->Some_0.content@ == e.content,
        None => r is None,
    }
}

/// Whether these are the paths and contents of those entries, one by one.
pub open spec fn are_binary_results(results: Seq<BinaryAssetResult>, entries: Seq<BinaryEntry>) -> bool {
    results.len() == entries.len() && forall|i: int|
        0 <= i < results.len() ==> (#[trigger] results[i]).path@ == entries[i].path
            && results[i].content@ == entries[i].content
}

/// Loads a text asset by its key.
pub fn load_string_asset(registry: &AssetRegistry, key: &str) -> (r: Option<StringAssetResult>)
    ensures
        is_string_result(r, string_under(registry.strings(), key@)),
        registry.strings() == string_catalogue(registry.payloads()),
{
    proof {
        use_type_invariant(registry);
    }
    let ghost entries = registry.strings();
    let ghost wanted = |e: StringEntry| e.key == key@;
    let mut i: usize = 0;
    while i < registry.strings.len()
        invariant
            i <= registry.strings.len(),
            entries == registry.strings(),
            wanted == |e: StringEntry| e.key == key@,
            forall|j: int| 0 <= j < i ==> !wanted(#[trigger] entries[j]),
        decreases registry.strings.len() - i,
    {
        let entry = &registry.strings[i];
        assert(entry@ == entries[i as int]);
        if str_eq(entry.key, key) {
            proof {
                use_type_invariant(registry);
                lemma_first_match_at(entries, wanted, i as int);
            }
            return Some(StringAssetResult { content: entry.asset.content, path: entry.asset.path });
        }
        i += 1;
    }
    proof {
        lemma_first_match_none(entries, wanted);
    }
    None
}

/// Loads a binary asset by its key.
pub fn load_binary_asset(registry: &AssetRegistry, key: &str) -> (r: Option<BinaryAssetResult>)
    ensures
        is_binary_result(r, binary_under(registry.binaries(), key@)),
        registry.binaries() == binary_catalogue(registry.payloads()),
{
    proof {
        use_type_invariant(registry);
    }
    let ghost entries = registry.binaries();
    let ghost wanted = |e: BinaryEntry| e.key == key@;
    let mut i: usize = 0;
    while i < registry.binaries.len()
        invariant
            i <= registry.binaries.len(),
            entries == registry.binaries(),
            wanted == |e: BinaryEntry| e.key == key@,
            forall|j: int| 0 <= j < i ==> !wanted(#[trigger] entries[j]),
        decreases registry.binaries.len() - i,
    {
        let entry = &registry.binaries[i];
        assert(entry@ == entries[i as int]);
        if str_eq(entry.key, key) {
            proof {
                use_type_invariant(registry);
                lemma_first_match_at(entries, wanted, i as int);
            }
            return Some(BinaryAssetResult { content: entry.asset.content, path: entry.asset.path });
        }
        i += 1;
    }
    proof {
        lemma_first_match_none(entries, wanted);
    }
    None
}

/// Resolves a file of a package to its source. Only the memo package, in
/// its one version, has files here.
pub fn resolve_package_file(registry: &AssetRegistry, spec: &PackageSpec, path: &str) -> (r: Option<
    &'static str,
>)
    ensures
        match package_file(registry.strings(), *spec, path@) {
            Some(source) => r is Some && r->Some_0@ == source,
            None => r is None,
        },
        registry.strings() == string_catalogue(registry.payloads()),
{
    proof {
        use_type_invariant(registry);
    }
    if str_eq(spec.namespace.as_str(), "preview") && str_eq(
        spec.name.as_str(),
        "tonguetoquill-usaf-memo",
    ) && spec.version.major == 0 && spec.version.minor == 1 && spec.version.patch == 0 {
        let key = if str_eq(path, "typst.toml") {
            "package-typst-toml"
        } else if str_eq(path, "src/lib.typ") {
            "package-lib"
        } else if str_eq(path, "src/utils.typ") {
            "package-utils"
        } else {
            return None;
        };
        match load_string_asset(registry, key) {
            Some(asset) => Some(asset.content),
            None => None,
        }
    } else {
        None
    }
}

/// Whether a request for `requested` may be answered with the asset at
/// `canonical`.
fn matches_loosely(canonical: &str, requested: &str) -> (r: bool)
    ensures
        r == loosely_matches(canonical@, requested@),
{
    let asked = last_path_segment(requested);
    let held = last_path_segment(canonical);
    str_eq(asked.as_str(), held.as_str()) && str_ends_with(canonical, requested)
}

/// The bytes of the first asset at the path; failing that, of the first
/// asset whose canonical path matches it loosely.
fn find_by_path(registry: &AssetRegistry, path: &str) -> (r: Option<&'static [u8]>)
    ensures
        match resolved(registry.binaries(), path@) {
            Some(bytes) => r is Some && r->Some_0@ == bytes,
            None => r is None,
        },
{
    let ghost entries = registry.binaries();
    let ghost exact = |e: BinaryEntry| e.path == path@;
    let ghost loose = |e: BinaryEntry| loosely_matches(e.path, path@);
    let mut i: usize = 0;
    while i < registry.binaries.len()
        invariant
            i <= registry.binaries.len(),
            entries == registry.binaries(),
            exact == |e: BinaryEntry| e.path == path@,
            forall|j: int| 0 <= j < i ==> !exact(#[trigger] entries[j]),
        decreases registry.binaries.len() - i,
    {
        let entry = &registry.binaries[i];
        assert(entry@ == entries[i as int]);
        if str_eq(entry.asset.path, path) {
            proof {
                lemma_first_match_at(entries, exact, i as int);
            }
            return Some(entry.asset.content);
        }
        i += 1;
    }
    proof {
        lemma_first_match_none(entries, exact);
    }
    let mut k: usize = 0;
    while k < registry.binaries.len()
        invariant
            k <= registry.binaries.len(),
            entries == registry.binaries(),
            loose == |e: BinaryEntry| loosely_matches(e.path, path@),
            exact == |e: BinaryEntry| e.path == path@,
            first_match(entries, exact) is None,
            forall|j: int| 0 <= j < k ==> !loose(#[trigger] entries[j]),
        decreases registry.binaries.len() - k,
    {
        let entry = &registry.binaries[k];
        assert(entry@ == entries[k as int]);
        if matches_loosely(entry.asset.path, path) {
            proof {
                lemma_first_match_at(entries, loose, k as int);
            }
            return Some(entry.asset.content);
        }
        k += 1;
    }
    proof {
        lemma_first_match_none(entries, loose);
    }
    None
}

/// Resolves a path to the bytes of an asset: by its canonical path, or,
/// failing that, by a canonical path that ends with the path asked for.
/// The canonical path of an asset always gives the bytes of that asset, and
/// a path that matches no asset gives nothing.
pub fn resolve_binary_asset(registry: &AssetRegistry, path: &str) -> (r: Option<&'static [u8]>)
    ensures
        match resolved(registry.binaries(), path@) {
            Some(bytes) => r is Some && r->Some_0@ == bytes,
            None => r is None,
        },
        registry.binaries() == binary_catalogue(registry.payloads()),
        forall|i: int|
            0 <= i < registry.binaries().len() && path@ == (#[trigger] registry.binaries()[i]).path
                ==> r is Some && r->Some_0@ == registry.binaries()[i].content,
        r is None <==> forall|i: int|
            0 <= i < registry.binaries().len() ==> (#[trigger] registry.binaries()[i]).path
                != path@ && !loosely_matches(registry.binaries()[i].path, path@),
{
    proof {
        use_type_invariant(registry);
        lemma_catalogue_paths_distinct(registry.payloads());
        lemma_unrelated_path_is_absent(registry.binaries(), path@);
        assert forall|i: int|
            0 <= i < registry.binaries().len() && path@ == (#[trigger] registry.binaries()[i]).path
            implies resolved(registry.binaries(), path@) == Some(
            registry.binaries()[i].content,
        ) by {
            lemma_canonical_path_resolves(registry.binaries(), i);
        }
    }
    find_by_path(registry, path)
}

/// The fonts, in the order of [`font_keys`].
pub fn get_font_assets(registry: &AssetRegistry) -> (r: Vec<BinaryAssetResult>)
    ensures
        are_binary_results(r@, collected(registry.binaries(), font_keys())),
        are_binary_results(r@, binary_catalogue(registry.payloads()).skip(1)),
        registry.binaries() == binary_catalogue(registry.payloads()),
{
    let mut keys: Vec<&'static str> = Vec::new();
    keys.push("arial.ttf");
    keys.push("times.ttf");
    keys.push("Times.ttc");
    keys.push("CopperplateCC-Heavy.otf");
    let ghost wanted = font_keys();
    assert(wanted.len() == 4);
    let ghost entries = registry.binaries();
    let mut fonts: Vec<BinaryAssetResult> = Vec::new();
    let mut i: usize = 0;
    while i < keys.len()
        invariant
            i <= keys.len(),
            keys@.len() == wanted.len(),
            wanted == font_keys(),
            entries == registry.binaries(),
            forall|j: int| 0 <= j < keys@.len() ==> (#[trigger] keys@[j])@ == wanted[j],
            are_binary_results(fonts@, collected(entries, wanted.take(i as int))),
        decreases keys.len() - i,
    {
        proof {
            assert(wanted.take(i + 1).drop_last() == wanted.take(i as int));
            assert(wanted.take(i + 1).last() == wanted[i as int]);
        }
        match load_binary_asset(registry, keys[i]) {
            Some(font) => {
                fonts.push(font);
            },
            None => {},
        }
        i += 1;
    }
    proof {
        assert(wanted.take(i as int) == wanted);
        use_type_invariant(registry);
        lemma_catalogue_fonts(registry.payloads());
    }
    fonts
}

/// The keys of the text assets, in the order in which they were registered.
pub fn get_string_asset_keys(registry: &AssetRegistry) -> (r: Vec<&'static str>)
    ensures
        r@.len() == registry.strings().len(),
        forall|i: int| 0 <= i < r@.len() ==> (#[trigger] r@[i])@ == registry.strings()[i].key,
        registry.strings() == string_catalogue(registry.payloads()),
{
    proof {
        use_type_invariant(registry);
    }
    let mut keys: Vec<&'static str> = Vec::new();
    let mut i: usize = 0;
    while i < registry.strings.len()
        invariant
            i <= registry.strings.len(),
            keys@.len() == i,
            forall|j: int| 0 <= j < i ==> (#[trigger] keys@[j])@ == registry.strings()[j].key,
        decreases registry.strings.len() - i,
    {
        assert(registry.strings@[i as int]@ == registry.strings()[i as int]);
        keys.push(registry.strings[i].key);
        i += 1;
    }
    keys
}

/// The keys of the binary assets, in the order in which they were
/// registered.
pub fn get_binary_asset_keys(registry: &AssetRegistry) -> (r: Vec<&'static str>)
    ensures
        r@.len() == registry.binaries().len(),
        forall|i: int| 0 <= i < r@.len() ==> (#[trigger] r@[i])@ == registry.binaries()[i].key,
        registry.binaries() == binary_catalogue(registry.payloads()),
{
    proof {
        use_type_invariant(registry);
    }
    let mut keys: Vec<&'static str> = Vec::new();
    let mut i: usize = 0;
    while i < registry.binaries.len()
        invariant
            i <= registry.binaries.len(),
            keys@.len() == i,
            forall|j: int| 0 <= j < i ==> (#[trigger] keys@[j])@ == registry.binaries()[j].key,
        decreases registry.binaries.len() - i,
    {
        assert(registry.binaries@[i as int]@ == registry.binaries()[i as int]);
        keys.push(registry.binaries[i].key);
        i += 1;
    }
    keys
}

/// Whether there is a text asset under the key.
pub fn string_asset_exists(registry: &AssetRegistry, key: &str) -> (r: bool)
    ensures
        r == string_under(registry.strings(), key@) is Some,
{
    load_string_asset(registry, key).is_some()
}

/// Whether there is a binary asset under the key.
pub fn binary_asset_exists(registry: &AssetRegistry, key: &str) -> (r: bool)
    ensures
        r == binary_under(registry.binaries(), key@) is Some,
{
    load_binary_asset(registry, key).is_some()
}

} // verus!
