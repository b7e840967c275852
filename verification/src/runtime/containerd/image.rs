//! What an image says of itself: its layers and its process defaults.

use crate::codec::digest::{digest_name, name_digest, sha256, sha256_of};
use crate::codec::json::{
    array_len, fault, has_value, json_fault, json_has, json_len, json_string, string_at,
};
use crate::text::chars::same_text;
use crate::text::number::{decimal, push_decimal};
use vstd::prelude::*;
use vstd::utf8::encode_utf8;

verus! {

/// The architecture by the name that images use.
pub open spec fn image_arch(arch: Seq<char>) -> Seq<char> {
    if arch == "x86_64"@ {
        "amd64"@
    } else if arch == "aarch64"@ {
        "arm64"@
    } else {
        arch
    }
}

/// Names an architecture as images do.
pub fn goarch(arch: &str) -> (r: String)
    ensures
        r@ == image_arch(arch@),
{
    if same_text(arch, "x86_64") {
        "amd64".to_string()
    } else if same_text(arch, "aarch64") {
        "arm64".to_string()
    } else {
        arch.to_string()
    }
}

/// The process defaults of an image.
#[derive(Debug)]
pub struct ImageConfig {
    pub entrypoint: Vec<String>,
    pub cmd: Vec<String>,
    pub env: Vec<String>,
    pub working_dir: String,
    pub user: String,
}

#[verifier::ext_equal]
pub struct ImageConfigView {
    pub entrypoint: Seq<Seq<char>>,
    pub cmd: Seq<Seq<char>>,
    pub env: Seq<Seq<char>>,
    pub working_dir: Seq<char>,
    pub user: Seq<char>,
}

impl View for ImageConfig {
    type V = ImageConfigView;

    open spec fn view(&self) -> ImageConfigView {
        ImageConfigView {
            entrypoint: self.entrypoint.deep_view(),
            cmd: self.cmd.deep_view(),
            env: self.env.deep_view(),
            working_dir: self.working_dir@,
            user: self.user@,
        }
    }
}

/// An entry of an image index.
#[derive(Debug)]
pub struct ManifestEntry {
    pub os: Option<String>,
    pub architecture: Option<String>,
    pub digest: Option<String>,
}

#[verifier::ext_equal]
pub struct ManifestEntryView {
    pub os: Option<Seq<char>>,
    pub architecture: Option<Seq<char>>,
    pub digest: Option<Seq<char>>,
}

impl View for ManifestEntry {
    type V = ManifestEntryView;

    open spec fn view(&self) -> ManifestEntryView {
        ManifestEntryView {
            os: self.os.deep_view(),
            architecture: self.architecture.deep_view(),
            digest: self.digest.deep_view(),
        }
    }
}

impl DeepView for ManifestEntry {
    type V = ManifestEntryView;

    open spec fn deep_view(&self) -> ManifestEntryView {
        self@
    }
}

/// Whether an entry is for Linux on an architecture.
pub open spec fn entry_fits(entry: ManifestEntryView, arch: Seq<char>) -> bool {
    entry.os == Some("linux"@) && entry.architecture == Some(arch)
}

/// The first entry that fits, from an index on.
pub open spec fn first_fit(entries: Seq<ManifestEntryView>, arch: Seq<char>) -> Option<
    ManifestEntryView,
>
    decreases entries.len(),
{
    if entries.len() == 0 {
        None
    } else if entry_fits(entries[0], arch) {
        Some(entries[0])
    } else {
        first_fit(entries.skip(1), arch)
    }
}

/// The manifest that is chosen from an index: the first that fits, else the
/// first.
pub open spec fn chosen_manifest(entries: Seq<ManifestEntryView>, arch: Seq<char>) -> Result<
    Seq<char>,
    Seq<char>,
> {
    if entries.len() == 0 {
        Err("no manifest in index"@)
    } else {
        let entry = match first_fit(entries, arch) {
            Some(e) => e,
            None => entries[0],
        };
        match entry.digest {
            Some(d) => Ok(d),
            None => Err("manifest entry missing digest"@),
        }
    }
}

/// A result with the views of its value and its error.
pub open spec fn text_result(r: Result<String, String>) -> Result<Seq<char>, Seq<char>> {
    match r {
        Ok(s) => Ok(s@),
        Err(e) => Err(e@),
    }
}

fn is_text(o: &Option<String>, s: &str) -> (r: bool)
    ensures
        r == (o.deep_view() == Some(s@)),
{
    match o {
        Some(t) => same_text(t.as_str(), s),
        None => false,
    }
}

/// Finds the first entry that fits.
fn find_fit(entries: &Vec<ManifestEntry>, arch: &str) -> (r: Option<usize>)
    ensures
        match r {
            Some(i) => i < entries@.len() && first_fit(entries.deep_view(), arch@) == Some(
                entries@[i as int]@,
            ),
            None => first_fit(entries.deep_view(), arch@) is None,
        },
{
    let n: usize = entries.len();
    let ghost all = entries.deep_view();
    assert(all.skip(0) == all);
    for i in 0..n
        invariant
            n == entries@.len(),
            all == entries.deep_view(),
            first_fit(all, arch@) == first_fit(all.skip(i as int), arch@),
    {
        assert(all.skip(i as int)[0] == entries@[i as int]@);
        assert(all.skip(i as int).skip(1) == all.skip(i + 1));
        if is_text(&entries[i].os, "linux") && is_text(&entries[i].architecture, arch) {
            return Some(i);
        }
    }
    assert(all.skip(n as int).len() == 0);
    None
}

/// Chooses a manifest from an index.
pub fn choose_manifest(entries: &Vec<ManifestEntry>, arch: &str) -> (r: Result<String, String>)
    ensures
        text_result(r) == chosen_manifest(entries.deep_view(), arch@),
{
    if entries.len() == 0 {
        return Err("no manifest in index".to_string());
    }
    let at: usize = match find_fit(entries, arch) {
        Some(i) => i,
        None => 0,
    };
    assert(entries.deep_view()[at as int] == entries@[at as int]@);
    match &entries[at].digest {
        Some(d) => Ok(d.clone()),
        None => Err("manifest entry missing digest".to_string()),
    }
}

/// The pointer to an item of the array at a pointer.
pub open spec fn item_pointer(pointer: Seq<char>, i: nat) -> Seq<char> {
    pointer + "/"@ + decimal(i)
}

/// Writes the pointer to an item of the array at a pointer.
fn item_of(pointer: &str, i: usize) -> (r: String)
    ensures
        r@ == item_pointer(pointer@, i as nat),
{
    let mut r = pointer.to_string();
    r.append("/");
    push_decimal(&mut r, i as u64);
    r
}

/// The pointer to a field of an entry of the index.
pub open spec fn entry_pointer(i: nat, field: Seq<char>) -> Seq<char> {
    item_pointer("/manifests"@, i) + field
}

/// Writes the pointer to a field of an entry of the index.
fn entry_field(i: usize, field: &str) -> (r: String)
    ensures
        r@ == entry_pointer(i as nat, field@),
{
    let mut r = item_of("/manifests", i);
    r.append(field);
    r
}

/// An entry of the index in a blob.
pub open spec fn entry_of(blob: Seq<u8>, i: nat) -> ManifestEntryView {
    ManifestEntryView {
        os: json_string(blob, entry_pointer(i, "/platform/os"@)),
        architecture: json_string(blob, entry_pointer(i, "/platform/architecture"@)),
        digest: json_string(blob, entry_pointer(i, "/digest"@)),
    }
}

/// The entries of the index in a blob.
pub open spec fn entries_of(blob: Seq<u8>) -> Seq<ManifestEntryView> {
    let n = match json_len(blob, "/manifests"@) {
        Some(n) => n,
        None => 0,
    };
    Seq::new(n, |i: int| entry_of(blob, i as nat))
}

/// Reads the entries of the index in a blob.
pub fn manifest_entries(blob: &Vec<u8>) -> (r: Vec<ManifestEntry>)
    ensures
        r.deep_view() == entries_of(blob@),
{
    let n: usize = match array_len(blob, "/manifests") {
        Some(n) => n,
        None => 0,
    };
    let ghost all = entries_of(blob@);
    let mut r: Vec<ManifestEntry> = Vec::new();
    assert(r.deep_view() =~= all.take(0));
    for i in 0..n
        invariant
            all == entries_of(blob@),
            n == all.len(),
            r.deep_view() == all.take(i as int),
    {
        let ghost done = r.deep_view();
        r.push(
            ManifestEntry {
                os: string_at(blob, entry_field(i, "/platform/os").as_str()),
                architecture: string_at(blob, entry_field(i, "/platform/architecture").as_str()),
                digest: string_at(blob, entry_field(i, "/digest").as_str()),
            },
        );
        assert(r.deep_view() =~= done.push(all[i as int]));
        assert(r.deep_view() =~= all.take(i + 1));
    }
    assert(all.take(n as int) == all);
    r
}

/// Where the manifest of an image is, given why the blob that the image points
/// at is no JSON, and the entries of the index if it is an index: the blob
/// itself, or the manifest that the index names for the architecture.
pub open spec fn placed(
    fault: Option<Seq<char>>,
    entries: Option<Seq<ManifestEntryView>>,
    arch: Seq<char>,
) -> Result<Option<Seq<char>>, Seq<char>> {
    match fault {
        Some(e) => Err("parse manifest/index json: "@ + e),
        None => match entries {
            Some(entries) => match chosen_manifest(entries, arch) {
                Ok(d) => Ok(Some(d)),
                Err(e) => Err(e),
            },
            None => Ok(None),
        },
    }
}

/// A result with the views of its optional value and its error.
pub open spec fn place_result(r: Result<Option<String>, String>) -> Result<
    Option<Seq<char>>,
    Seq<char>,
> {
    match r {
        Ok(d) => Ok(d.deep_view()),
        Err(e) => Err(e@),
    }
}

/// Says where the manifest of an image is, given what was found in the blob that
/// the image points at.
pub fn place_manifest(
    fault: Option<String>,
    entries: &Option<Vec<ManifestEntry>>,
    arch: &str,
) -> (r: Result<Option<String>, String>)
    ensures
        place_result(r) == placed(fault.deep_view(), entries.deep_view(), arch@),
{
    if let Some(e) = fault {
        let mut m = "parse manifest/index json: ".to_string();
        m.append(e.as_str());
        return Err(m);
    }
    match entries {
        Some(entries) => match choose_manifest(entries, arch) {
            Ok(d) => Ok(Some(d)),
            Err(e) => Err(e),
        },
        None => Ok(None),
    }
}

/// The entries of the index in a blob, if it is an index.
pub open spec fn index_of(blob: Seq<u8>) -> Option<Seq<ManifestEntryView>> {
    if json_has(blob, "/manifests"@) {
        Some(entries_of(blob))
    } else {
        None
    }
}

/// Where the manifest of an image is, given the blob that the image points at.
pub open spec fn manifest_place(blob: Seq<u8>, arch: Seq<char>) -> Result<
    Option<Seq<char>>,
    Seq<char>,
> {
    placed(json_fault(blob), index_of(blob), arch)
}

/// Finds the manifest of an image, given the blob that the image points at.
pub fn find_manifest(blob: &Vec<u8>, arch: &str) -> (r: Result<Option<String>, String>)
    ensures
        place_result(r) == manifest_place(blob@, arch@),
{
    let entries = if has_value(blob, "/manifests") {
        Some(manifest_entries(blob))
    } else {
        None
    };
    place_manifest(fault(blob), &entries, arch)
}

/// The digest that a manifest has for its image config, or what is amiss.
pub open spec fn named(digest: Option<Seq<char>>) -> Result<Seq<char>, Seq<char>> {
    match digest {
        Some(d) => Ok(d),
        None => Err("manifest missing config.digest"@),
    }
}

/// The same, of a manifest that may be no JSON.
pub open spec fn parsed_named(fault: Option<Seq<char>>, digest: Option<Seq<char>>) -> Result<
    Seq<char>,
    Seq<char>,
> {
    match fault {
        Some(e) => Err("parse manifest json: "@ + e),
        None => named(digest),
    }
}

/// Takes the digest that a manifest has for its image config.
pub fn name_config(digest: Option<String>) -> (r: Result<String, String>)
    ensures
        text_result(r) == named(digest.deep_view()),
{
    match digest {
        Some(d) => Ok(d),
        None => Err("manifest missing config.digest".to_string()),
    }
}

/// Takes the digest that a manifest has for its image config, unless it is no
/// JSON.
pub fn name_parsed_config(fault: Option<String>, digest: Option<String>) -> (r: Result<
    String,
    String,
>)
    ensures
        text_result(r) == parsed_named(fault.deep_view(), digest.deep_view()),
{
    if let Some(e) = fault {
        let mut m = "parse manifest json: ".to_string();
        m.append(e.as_str());
        return Err(m);
    }
    name_config(digest)
}

/// The digest of the image config that a manifest names.
pub open spec fn config_place(manifest: Seq<u8>) -> Result<Seq<char>, Seq<char>> {
    named(json_string(manifest, "/config/digest"@))
}

/// The digest of the image config that a manifest from an index names.
pub open spec fn parsed_config_place(manifest: Seq<u8>) -> Result<Seq<char>, Seq<char>> {
    parsed_named(json_fault(manifest), json_string(manifest, "/config/digest"@))
}

/// Finds the image config of a manifest that is known to be JSON.
pub fn find_config(manifest: &Vec<u8>) -> (r: Result<String, String>)
    ensures
        text_result(r) == config_place(manifest@),
{
    name_config(string_at(manifest, "/config/digest"))
}

/// Finds the image config of a manifest.
pub fn parse_and_find_config(manifest: &Vec<u8>) -> (r: Result<String, String>)
    ensures
        text_result(r) == parsed_config_place(manifest@),
{
    name_parsed_config(fault(manifest), string_at(manifest, "/config/digest"))
}

/// The strings among the first `n` items of the array at a pointer.
pub open spec fn strings_before(blob: Seq<u8>, pointer: Seq<char>, n: nat) -> Seq<Seq<char>>
    decreases n,
{
    if n == 0 {
        Seq::empty()
    } else {
        let before = strings_before(blob, pointer, (n - 1) as nat);
        match json_string(blob, item_pointer(pointer, (n - 1) as nat)) {
            Some(s) => before.push(s),
            None => before,
        }
    }
}

/// The strings of the array at a pointer, if there is an array.
pub open spec fn strings_at(blob: Seq<u8>, pointer: Seq<char>) -> Option<Seq<Seq<char>>> {
    match json_len(blob, pointer) {
        Some(n) => Some(strings_before(blob, pointer, n)),
        None => None,
    }
}

/// The strings of the array at a pointer, or none.
pub open spec fn strings_or_none(blob: Seq<u8>, pointer: Seq<char>) -> Seq<Seq<char>> {
    match strings_at(blob, pointer) {
        Some(s) => s,
        None => Seq::empty(),
    }
}

/// Reads the strings of the array at a pointer; items that are no strings are
/// passed over.
fn read_strings(blob: &Vec<u8>, pointer: &str) -> (r: Option<Vec<String>>)
    ensures
        r.deep_view() == strings_at(blob@, pointer@),
{
    let n: usize = match array_len(blob, pointer) {
        Some(n) => n,
        None => {
            return None;
        },
    };
    let mut r: Vec<String> = Vec::new();
    assert(r.deep_view() =~= strings_before(blob@, pointer@, 0));
    for i in 0..n
        invariant
            r.deep_view() == strings_before(blob@, pointer@, i as nat),
    {
        let ghost done = r.deep_view();
        if let Some(s) = string_at(blob, item_of(pointer, i).as_str()) {
            let ghost v = s@;
            r.push(s);
            assert(r.deep_view() =~= done.push(v));
        }
    }
    Some(r)
}

fn read_list(blob: &Vec<u8>, pointer: &str) -> (r: Vec<String>)
    ensures
        r.deep_view() == strings_or_none(blob@, pointer@),
{
    match read_strings(blob, pointer) {
        Some(v) => v,
        None => {
            let v: Vec<String> = Vec::new();
            assert(v.deep_view() =~= Seq::<Seq<char>>::empty());
            v
        },
    }
}

/// The string at a pointer, or nothing.
pub open spec fn string_or_empty(blob: Seq<u8>, pointer: Seq<char>) -> Seq<char> {
    match json_string(blob, pointer) {
        Some(s) => s,
        None => Seq::empty(),
    }
}

fn read_string(blob: &Vec<u8>, pointer: &str) -> (r: String)
    ensures
        r@ == string_or_empty(blob@, pointer@),
{
    match string_at(blob, pointer) {
        Some(s) => s,
        None => String::new(),
    }
}

/// The layers of an image, given why its config is no JSON and the layers that
/// the config lists, or what is amiss.
pub open spec fn layers_of(fault: Option<Seq<char>>, ids: Option<Seq<Seq<char>>>) -> Result<
    Seq<Seq<char>>,
    Seq<char>,
> {
    match fault {
        Some(e) => Err("parse image config json: "@ + e),
        None => match ids {
            None => Err("config missing rootfs.diff_ids"@),
            Some(ids) => if ids.len() == 0 {
                Err("empty diff_ids"@)
            } else {
                Ok(ids)
            },
        },
    }
}

/// Takes the layers that an image config lists.
pub fn list_layers(fault: Option<String>, ids: Option<Vec<String>>) -> (r: Result<
    Vec<String>,
    String,
>)
    ensures
        match r {
            Ok(layers) => layers_of(fault.deep_view(), ids.deep_view()) == Ok::<
                Seq<Seq<char>>,
                Seq<char>,
            >(layers.deep_view()) && layers@.len() > 0,
            Err(e) => layers_of(fault.deep_view(), ids.deep_view()) == Err::<
                Seq<Seq<char>>,
                Seq<char>,
            >(e@),
        },
{
    if let Some(e) = fault {
        let mut m = "parse image config json: ".to_string();
        m.append(e.as_str());
        return Err(m);
    }
    match ids {
        Some(ids) => if ids.len() == 0 {
            Err("empty diff_ids".to_string())
        } else {
            Ok(ids)
        },
        None => Err("config missing rootfs.diff_ids".to_string()),
    }
}

/// The process defaults in an image config.
pub open spec fn defaults_of(blob: Seq<u8>) -> ImageConfigView {
    ImageConfigView {
        entrypoint: strings_or_none(blob, "/config/Entrypoint"@),
        cmd: strings_or_none(blob, "/config/Cmd"@),
        env: strings_or_none(blob, "/config/Env"@),
        working_dir: string_or_empty(blob, "/config/WorkingDir"@),
        user: string_or_empty(blob, "/config/User"@),
    }
}

/// What an image config says: the layers and the process defaults.
pub open spec fn image_of(blob: Seq<u8>) -> Result<(Seq<Seq<char>>, ImageConfigView), Seq<char>> {
    match layers_of(json_fault(blob), strings_at(blob, "/rootfs/diff_ids"@)) {
        Ok(ids) => Ok((ids, defaults_of(blob))),
        Err(e) => Err(e),
    }
}

/// A result with the views of an image's layers, its config and the error.
pub open spec fn image_result(r: Result<(Vec<String>, ImageConfig), String>) -> Result<
    (Seq<Seq<char>>, ImageConfigView),
    Seq<char>,
> {
    match r {
        Ok(image) => Ok((image.0.deep_view(), image.1@)),
        Err(e) => Err(e@),
    }
}

/// Reads an image config.
pub fn read_image(blob: &Vec<u8>) -> (r: Result<(Vec<String>, ImageConfig), String>)
    ensures
        image_result(r) == image_of(blob@),
        r is Ok ==> r->Ok_0.0@.len() > 0,
{
    match list_layers(fault(blob), read_strings(blob, "/rootfs/diff_ids")) {
        Ok(ids) => {
            let config = ImageConfig {
                entrypoint: read_list(blob, "/config/Entrypoint"),
                cmd: read_list(blob, "/config/Cmd"),
                env: read_list(blob, "/config/Env"),
                working_dir: read_string(blob, "/config/WorkingDir"),
                user: read_string(blob, "/config/User"),
            };
            Ok((ids, config))
        },
        Err(e) => Err(e),
    }
}

/// The text whose digest identifies a chain of layers with one more layer on
/// top.
pub open spec fn link_text(chain: Seq<char>, next: Seq<char>) -> Seq<char> {
    chain + " "@ + next
}

/// The identity of a chain of layers with one more layer on top.
pub open spec fn chain_link(chain: Seq<char>, next: Seq<char>) -> Seq<char> {
    digest_name(sha256_of(encode_utf8(link_text(chain, next))))
}

/// Writes the text whose digest identifies a chain with one more layer.
pub fn write_link(chain: &str, next: &str) -> (r: String)
    ensures
        r@ == link_text(chain@, next@),
{
    let mut r = chain.to_string();
    r.append(" ");
    r.append(next);
    r
}

/// The identity of a chain of layers.
pub open spec fn chain_of(ids: Seq<Seq<char>>) -> Seq<char>
    decreases ids.len(),
{
    if ids.len() <= 1 {
        ids[0]
    } else {
        chain_link(chain_of(ids.drop_last()), ids.last())
    }
}

/// Folds the layers of an image into the identity of its root file system.
pub fn chain_id(diff_ids: &Vec<String>) -> (r: String)
    requires
        diff_ids@.len() > 0,
    ensures
        r@ == chain_of(diff_ids.deep_view()),
{
    let ghost all = diff_ids.deep_view();
    let n: usize = diff_ids.len();
    let mut chain = diff_ids[0].clone();
    assert(all.take(1).len() == 1);
    assert(chain@ == chain_of(all.take(1)));
    let mut i: usize = 1;
    while i < n
        invariant
            n == diff_ids@.len(),
            1 <= i <= n,
            all == diff_ids.deep_view(),
            chain@ == chain_of(all.take(i as int)),
        decreases n - i,
    {
        assert(all.take(i + 1).drop_last() == all.take(i as int));
        assert(all.take(i + 1).last() == diff_ids@[i as int]@);
        let text = write_link(chain.as_str(), diff_ids[i].as_str());
        chain = name_digest(&sha256(&text.as_str().as_bytes_vec()));
        i = i + 1;
    }
    assert(all.take(n as int) == all);
    chain
}

/// Adding a layer changes the identity of the chain by one link alone, whatever
/// lies below.
pub proof fn law_chain_grows_by_links(ids: Seq<Seq<char>>, next: Seq<char>)
    requires
        ids.len() > 0,
    ensures
        chain_of(ids.push(next)) == chain_link(chain_of(ids), next),
{
    assert(ids.push(next).drop_last() =~= ids);
}

} // verus!
