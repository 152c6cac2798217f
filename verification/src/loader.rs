//! Installing, loading and removing the scripting addition: the files of its
//! bundle, the capability bytes of its loader, and what to do next.
use vstd::prelude::*;

use crate::bytes;
use crate::text;

verus! {

/// The directory of the bundle.
pub const OSAX_BASE: &'static str = "/Library/ScriptingAdditions/yabai.osax";

/// The files and directories of the bundle.
#[derive(Debug)]
pub struct Paths {
    pub info_plist: String,
    pub macos: String,
    pub resources: String,
    pub payload_macos: String,
    pub payload_plist: String,
    pub bin_loader: String,
    pub bin_payload: String,
}

/// The files and directories of the bundle.
pub fn paths() -> (r: Paths)
    ensures
        r.info_plist@ == "/Library/ScriptingAdditions/yabai.osax/Contents/Info.plist"@,
        r.macos@ == "/Library/ScriptingAdditions/yabai.osax/Contents/MacOS"@,
        r.resources@ == "/Library/ScriptingAdditions/yabai.osax/Contents/Resources"@,
        r.payload_macos@
            == "/Library/ScriptingAdditions/yabai.osax/Contents/Resources/payload.bundle/Contents/MacOS"@,
        r.payload_plist@
            == "/Library/ScriptingAdditions/yabai.osax/Contents/Resources/payload.bundle/Contents/Info.plist"@,
        r.bin_loader@ == "/Library/ScriptingAdditions/yabai.osax/Contents/MacOS/loader"@,
        r.bin_payload@
            == "/Library/ScriptingAdditions/yabai.osax/Contents/Resources/payload.bundle/Contents/MacOS/payload"@,
{
    Paths {
        info_plist: "/Library/ScriptingAdditions/yabai.osax/Contents/Info.plist".to_owned(),
        macos: "/Library/ScriptingAdditions/yabai.osax/Contents/MacOS".to_owned(),
        resources: "/Library/ScriptingAdditions/yabai.osax/Contents/Resources".to_owned(),
        payload_macos:
            "/Library/ScriptingAdditions/yabai.osax/Contents/Resources/payload.bundle/Contents/MacOS".to_owned(),
        payload_plist:
            "/Library/ScriptingAdditions/yabai.osax/Contents/Resources/payload.bundle/Contents/Info.plist".to_owned(),
        bin_loader: "/Library/ScriptingAdditions/yabai.osax/Contents/MacOS/loader".to_owned(),
        bin_payload:
            "/Library/ScriptingAdditions/yabai.osax/Contents/Resources/payload.bundle/Contents/MacOS/payload".to_owned(),
    }
}

/// What stands in a property list before the name of the executable.
pub open spec fn plist_head() -> Seq<char> {
    "<?xml version=\"1.0\" encoding=\"UTF-8\"?>\n<!DOCTYPE plist PUBLIC \"-//Apple//DTD PLIST 1.0//EN\" \"http://www.apple.com/DTDs/PropertyList-1.0.dtd\">\n<plist version=\"1.0\">\n<dict>\n<key>CFBundleDevelopmentRegion</key>\n<string>en</string>\n<key>CFBundleExecutable</key>\n<string>"@
}

fn head_string() -> (r: String)
    ensures
        r@ == plist_head(),
{
    "<?xml version=\"1.0\" encoding=\"UTF-8\"?>\n<!DOCTYPE plist PUBLIC \"-//Apple//DTD PLIST 1.0//EN\" \"http://www.apple.com/DTDs/PropertyList-1.0.dtd\">\n<plist version=\"1.0\">\n<dict>\n<key>CFBundleDevelopmentRegion</key>\n<string>en</string>\n<key>CFBundleExecutable</key>\n<string>".to_owned()
}

/// A property list: the executable, the identifier, the name and the type of a
/// bundle, its version twice, and what follows.
pub open spec fn plist_text(
    executable: Seq<char>,
    identifier: Seq<char>,
    name: Seq<char>,
    kind: Seq<char>,
    version: Seq<char>,
    rest: Seq<char>,
) -> Seq<char> {
    plist_names(executable, identifier, name, kind)
        + "</string>\n<key>CFBundleShortVersionString</key>\n<string>"@ + version
        + "</string>\n<key>CFBundleVersion</key>\n<string>"@ + version
        + "</string>\n<key>NSHumanReadableCopyright</key>\n<string>Copyright \u{a9} 2019 \u{c5}smund Vikane. All rights reserved.</string>\n"@
        + rest
}

/// The first half of a property list.
pub open spec fn plist_names(
    executable: Seq<char>,
    identifier: Seq<char>,
    name: Seq<char>,
    kind: Seq<char>,
) -> Seq<char> {
    plist_head() + executable + "</string>\n<key>CFBundleIdentifier</key>\n<string>"@ + identifier
        + "</string>\n<key>CFBundleInfoDictionaryVersion</key>\n<string>6.0</string>\n<key>CFBundleName</key>\n<string>"@
        + name + "</string>\n<key>CFBundlePackageType</key>\n<string>"@ + kind
}

fn plist_string(
    executable: &str,
    identifier: &str,
    name: &str,
    kind: &str,
    version: &str,
    rest: &str,
) -> (r: String)
    ensures
        r@ == plist_text(executable@, identifier@, name@, kind@, version@, rest@),
{
    let mut out = head_string();
    out.append(executable);
    out.append("</string>\n<key>CFBundleIdentifier</key>\n<string>");
    out.append(identifier);
    out.append(
        "</string>\n<key>CFBundleInfoDictionaryVersion</key>\n<string>6.0</string>\n<key>CFBundleName</key>\n<string>",
    );
    out.append(name);
    out.append("</string>\n<key>CFBundlePackageType</key>\n<string>");
    out.append(kind);
    out.append("</string>\n<key>CFBundleShortVersionString</key>\n<string>");
    out.append(version);
    out.append("</string>\n<key>CFBundleVersion</key>\n<string>");
    out.append(version);
    out.append(
        "</string>\n<key>NSHumanReadableCopyright</key>\n<string>Copyright \u{a9} 2019 \u{c5}smund Vikane. All rights reserved.</string>\n",
    );
    out.append(rest);
    out
}

/// The property list of the bundle.
pub open spec fn bundle_list(version: Seq<char>) -> Seq<char> {
    plist_text(
        "loader"@,
        "com.asmvik.yabai-osax"@,
        "yabai"@,
        "osax"@,
        version,
        "<key>OSAXHandlers</key>\n<dict>\n</dict>\n</dict>\n</plist>"@,
    )
}

/// The property list of the payload inside the bundle.
pub open spec fn payload_list(version: Seq<char>) -> Seq<char> {
    plist_text(
        "payload"@,
        "com.asmvik.yabai-sa"@,
        "payload"@,
        "BNDL"@,
        version,
        "<key>NSPrincipalClass</key>\n<string></string>\n</dict>\n</plist>"@,
    )
}

/// The property list of the bundle.
pub fn sa_plist(version: &str) -> (r: String)
    ensures
        r@ == bundle_list(version@),
{
    plist_string(
        "loader",
        "com.asmvik.yabai-osax",
        "yabai",
        "osax",
        version,
        "<key>OSAXHandlers</key>\n<dict>\n</dict>\n</dict>\n</plist>",
    )
}

/// The property list of the payload inside the bundle.
pub fn sa_bundle_plist(version: &str) -> (r: String)
    ensures
        r@ == payload_list(version@),
{
    plist_string(
        "payload",
        "com.asmvik.yabai-sa",
        "payload",
        "BNDL",
        version,
        "<key>NSPrincipalClass</key>\n<string></string>\n</dict>\n</plist>",
    )
}

/// How a key stands in a property list.
pub open spec fn key_tag(key: Seq<char>) -> Seq<char> {
    "<key>"@ + key + "</key>"@
}

/// The text between the first `<string>` behind a key and the `</string>` that
/// ends it.
pub open spec fn plist_value(plist: Seq<char>, key: Seq<char>) -> Option<Seq<char>> {
    let tag = key_tag(key);
    match bytes::find(plist, tag, 0) {
        None => None,
        Some(at) => match bytes::find(plist, "<string>"@, at + tag.len()) {
            None => None,
            Some(open) => {
                let start = open + "<string>"@.len();
                match bytes::find(plist, "</string>"@, start) {
                    None => None,
                    Some(end) => Some(plist.subrange(start, end)),
                }
            },
        },
    }
}

fn chars_between(chars: &Vec<char>, start: usize, end: usize) -> (r: String)
    requires
        start <= end <= chars@.len(),
    ensures
        r@ == chars@.subrange(start as int, end as int),
{
    let mut out = String::new();
    let mut i: usize = start;
    assert(chars@.subrange(start as int, start as int) =~= Seq::<char>::empty());
    while i < end
        invariant
            start <= i <= end <= chars@.len(),
            out@ == chars@.subrange(start as int, i as int),
        decreases end - i,
    {
        out.push(chars[i]);
        assert(chars@.subrange(start as int, i + 1) =~= chars@.subrange(start as int, i as int).push(
            chars@[i as int],
        ));
        i += 1;
    }
    out
}

/// The value of a key in a property list.
pub fn plist_string_value(plist: &str, key: &str) -> (r: Option<String>)
    ensures
        match plist_value(plist@, key@) {
            Some(value) => r is Some && r->0@ == value,
            None => r is None,
        },
{
    let chars = text::chars_of(plist);
    let total = chars.len();
    let mut tag = "<key>".to_owned();
    tag.append(key);
    tag.append("</key>");
    let tag_chars = text::chars_of(tag.as_str());
    let at = match bytes::find_chars(&chars, &tag_chars, 0) {
        Some(at) => at,
        None => {
            return None;
        },
    };
    let opening = text::chars_of("<string>");
    assert(at + tag_chars@.len() <= total);
    let open = match bytes::find_chars(&chars, &opening, at + tag_chars.len()) {
        Some(open) => open,
        None => {
            return None;
        },
    };
    assert(open + opening@.len() <= total);
    let start = open + opening.len();
    match bytes::find_chars(&chars, &text::chars_of("</string>"), start) {
        Some(end) => Some(chars_between(&chars, start, end)),
        None => None,
    }
}

#[verifier::spinoff_prover]
proof fn lemma_head_clear()
    ensures
        bytes::clear(plist_head(), key_tag("CFBundleVersion"@), 0, plist_head().len() as int),
{
    reveal_strlit("<?xml version=\"1.0\" encoding=\"UTF-8\"?>\n<!DOCTYPE plist PUBLIC \"-//Apple//DTD PLIST 1.0//EN\" \"http://www.apple.com/DTDs/PropertyList-1.0.dtd\">\n<plist version=\"1.0\">\n<dict>\n<key>CFBundleDevelopmentRegion</key>\n<string>en</string>\n<key>CFBundleExecutable</key>\n<string>");
    reveal_strlit("<key>");
    reveal_strlit("</key>");
    reveal_strlit("CFBundleVersion");
    let h = plist_head();
    let t = key_tag("CFBundleVersion"@);
    reveal_with_fuel(bytes::misses, 16);
    reveal_with_fuel(bytes::clear, 40);
    assert(bytes::clear(h, t, 228, 266));
    assert(bytes::clear(h, t, 190, 266));
    assert(bytes::clear(h, t, 152, 266));
    assert(bytes::clear(h, t, 114, 266));
    assert(bytes::clear(h, t, 76, 266));
    assert(bytes::clear(h, t, 38, 266));
}

#[verifier::spinoff_prover]
proof fn lemma_separators_clear()
    ensures
        misses_tag("</string>\n<key>CFBundleIdentifier</key>\n<string>"@),
        misses_tag("</string>\n<key>CFBundlePackageType</key>\n<string>"@),
        misses_tag("</string>\n<key>CFBundleShortVersionString</key>\n<string>"@),
{
    reveal_strlit("</string>\n<key>CFBundleIdentifier</key>\n<string>");
    reveal_strlit("</string>\n<key>CFBundlePackageType</key>\n<string>");
    reveal_strlit("</string>\n<key>CFBundleShortVersionString</key>\n<string>");
    reveal_strlit("<key>");
    reveal_strlit("</key>");
    reveal_strlit("CFBundleVersion");
    let t = key_tag("CFBundleVersion"@);
    reveal_with_fuel(bytes::misses, 16);
    reveal_with_fuel(bytes::clear, 40);
    assert(bytes::clear("</string>\n<key>CFBundleIdentifier</key>\n<string>"@, t, 20, 48));
    assert(bytes::clear("</string>\n<key>CFBundlePackageType</key>\n<string>"@, t, 20, 49));
    assert(bytes::clear("</string>\n<key>CFBundleShortVersionString</key>\n<string>"@, t, 20, 56));
}

#[verifier::spinoff_prover]
proof fn lemma_long_separator_clear()
    ensures
        misses_tag(
            "</string>\n<key>CFBundleInfoDictionaryVersion</key>\n<string>6.0</string>\n<key>CFBundleName</key>\n<string>"@,
        ),
{
    reveal_strlit(
        "</string>\n<key>CFBundleInfoDictionaryVersion</key>\n<string>6.0</string>\n<key>CFBundleName</key>\n<string>",
    );
    reveal_strlit("<key>");
    reveal_strlit("</key>");
    reveal_strlit("CFBundleVersion");
    let l =
        "</string>\n<key>CFBundleInfoDictionaryVersion</key>\n<string>6.0</string>\n<key>CFBundleName</key>\n<string>"@;
    let t = key_tag("CFBundleVersion"@);
    reveal_with_fuel(bytes::misses, 16);
    reveal_with_fuel(bytes::clear, 40);
    assert(bytes::clear(l, t, 66, 104));
    assert(bytes::clear(l, t, 28, 104));
}

/// Whether the key of the version begins nowhere in a piece of a property list.
spec fn misses_tag(piece: Seq<char>) -> bool {
    bytes::clear(piece, key_tag("CFBundleVersion"@), 0, piece.len() as int)
}

#[verifier::spinoff_prover]
proof fn lemma_values_clear()
    ensures
        misses_tag("loader"@),
        misses_tag("com.asmvik.yabai-osax"@),
        misses_tag("yabai"@),
        misses_tag("osax"@),
        misses_tag("payload"@),
        misses_tag("com.asmvik.yabai-sa"@),
        misses_tag("BNDL"@),
{
    reveal_strlit("loader");
    reveal_strlit("com.asmvik.yabai-osax");
    reveal_strlit("yabai");
    reveal_strlit("osax");
    reveal_strlit("payload");
    reveal_strlit("com.asmvik.yabai-sa");
    reveal_strlit("BNDL");
    reveal_strlit("<key>");
    reveal_strlit("</key>");
    reveal_with_fuel(bytes::clear, 23);
    assert(key_tag("CFBundleVersion"@)[0] == '<');
}

/// Nothing in a property list before its first version is the key of the version.
proof fn lemma_front_clear(
    executable: Seq<char>,
    identifier: Seq<char>,
    name: Seq<char>,
    kind: Seq<char>,
)
    requires
        misses_tag(executable),
        misses_tag(identifier),
        misses_tag(name),
        misses_tag(kind),
    ensures
        misses_tag(
            plist_names(executable, identifier, name, kind)
                + "</string>\n<key>CFBundleShortVersionString</key>\n<string>"@,
        ),
{
    lemma_head_clear();
    lemma_separators_clear();
    lemma_long_separator_clear();
    let t = key_tag("CFBundleVersion"@);
    let a = plist_head();
    bytes::lemma_clear_joined(a, executable, t);
    let a = a + executable;
    let l = "</string>\n<key>CFBundleIdentifier</key>\n<string>"@;
    bytes::lemma_clear_joined(a, l, t);
    let a = a + l;
    bytes::lemma_clear_joined(a, identifier, t);
    let a = a + identifier;
    let l =
        "</string>\n<key>CFBundleInfoDictionaryVersion</key>\n<string>6.0</string>\n<key>CFBundleName</key>\n<string>"@;
    bytes::lemma_clear_joined(a, l, t);
    let a = a + l;
    bytes::lemma_clear_joined(a, name, t);
    let a = a + name;
    let l = "</string>\n<key>CFBundlePackageType</key>\n<string>"@;
    bytes::lemma_clear_joined(a, l, t);
    let a = a + l;
    bytes::lemma_clear_joined(a, kind, t);
    let a = a + kind;
    let l = "</string>\n<key>CFBundleShortVersionString</key>\n<string>"@;
    bytes::lemma_clear_joined(a, l, t);
}

/// What stands in a property list between the two places of its version.
spec fn before_version() -> Seq<char> {
    "</string>\n<key>CFBundleVersion</key>\n<string>"@
}

/// What stands in a property list behind the second place of its version.
spec fn behind_version() -> Seq<char> {
    "</string>\n<key>NSHumanReadableCopyright</key>\n<string>Copyright \u{a9} 2019 \u{c5}smund Vikane. All rights reserved.</string>\n"@
}

#[verifier::spinoff_prover]
proof fn lemma_before_version()
    ensures
        before_version().len() == 45,
        key_tag("CFBundleVersion"@).len() == 26,
        "<string>"@.len() == 8,
        bytes::clear(before_version(), key_tag("CFBundleVersion"@), 0, 10),
        bytes::meets(before_version(), key_tag("CFBundleVersion"@), 10, 0),
        bytes::clear(before_version(), "<string>"@, 0, 37),
        bytes::meets(before_version(), "<string>"@, 37, 0),
        bytes::clear(key_tag("CFBundleVersion"@), before_version(), 1, 26),
        bytes::clear("<string>"@, before_version(), 1, 8),
{
    reveal_strlit("</string>\n<key>CFBundleVersion</key>\n<string>");
    reveal_strlit("<string>");
    reveal_strlit("<key>");
    reveal_strlit("</key>");
    reveal_strlit("CFBundleVersion");
    reveal_with_fuel(bytes::misses, 4);
    reveal_with_fuel(bytes::clear, 40);
    reveal_with_fuel(bytes::meets, 28);
}

#[verifier::spinoff_prover]
proof fn lemma_behind_version()
    ensures
        "</string>"@.len() == 9,
        bytes::meets(behind_version(), "</string>"@, 0, 0),
        bytes::clear("</string>"@, behind_version(), 1, 9),
{
    reveal_strlit(
        "</string>\n<key>NSHumanReadableCopyright</key>\n<string>Copyright \u{a9} 2019 \u{c5}smund Vikane. All rights reserved.</string>\n",
    );
    reveal_strlit("</string>");
    reveal_with_fuel(bytes::misses, 2);
    reveal_with_fuel(bytes::clear, 10);
    reveal_with_fuel(bytes::meets, 10);
}

/// Whether a version can be read back from a property list: it holds no
/// `</string>`, and no `<string>` behind the key of the version.
pub open spec fn is_plain_version(version: Seq<char>) -> bool {
    &&& bytes::find(version, "</string>"@, 0) is None
    &&& match bytes::find(version, key_tag("CFBundleVersion"@), 0) {
        Some(at) => bytes::find(
            version,
            "<string>"@,
            at + key_tag("CFBundleVersion"@).len(),
        ) is None,
        None => true,
    }
}

proof fn lemma_version_value(front: Seq<char>, version: Seq<char>, rest: Seq<char>)
    requires
        misses_tag(front),
        is_plain_version(version),
    ensures
        plist_value(
            front + version + before_version() + version + behind_version() + rest,
            "CFBundleVersion"@,
        ) == Some(version),
{
    lemma_before_version();
    lemma_behind_version();
    let plist = front + version + before_version() + version + behind_version() + rest;
    let tag = key_tag("CFBundleVersion"@);
    let one = front.len() as int;
    let mid = one + version.len();
    let two = mid + 45;
    let end = two + version.len();
    assert(plist.subrange(0, one) =~= front);
    assert(plist.subrange(one, mid) =~= version);
    assert(plist.subrange(mid, two) =~= before_version());
    assert(plist.subrange(two, end) =~= version);
    assert(plist.subrange(end, end + behind_version().len()) =~= behind_version());
    // Where the key is found.
    bytes::lemma_clear(plist, front, 0, tag, 0, one);
    bytes::lemma_clear(plist, before_version(), mid, tag, 0, 10);
    bytes::lemma_find(version, tag, 0);
    let key = match bytes::find(version, tag, 0) {
        Some(at) => one + at,
        None => mid + 10,
    };
    assert(bytes::found_at(plist, tag, key)) by {
        bytes::lemma_meets(before_version(), tag, 10);
        if key == mid + 10 {
            bytes::lemma_found_through(plist, before_version(), mid, tag, 10);
        } else {
            bytes::lemma_found_through(plist, version, one, tag, key - one);
        }
    }
    assert forall|i: int| 0 <= i < key implies !bytes::found_at(plist, tag, i) by {
        if one <= i < mid && bytes::found_at(plist, tag, i) {
            bytes::lemma_within(plist, version, before_version(), one, tag, i);
        }
    }
    bytes::lemma_first(plist, tag, 0, key);
    // Where the value opens.
    bytes::lemma_clear(plist, before_version(), mid, "<string>"@, 0, 37);
    bytes::lemma_meets(before_version(), "<string>"@, 37);
    bytes::lemma_found_through(plist, before_version(), mid, "<string>"@, 37);
    let from = key + 26;
    assert forall|i: int| from <= i < mid + 37 implies !bytes::found_at(plist, "<string>"@, i) by {
        if i < mid && bytes::found_at(plist, "<string>"@, i) {
            bytes::lemma_find(version, "<string>"@, from - one);
            bytes::lemma_within(plist, version, before_version(), one, "<string>"@, i);
        }
    }
    bytes::lemma_first(plist, "<string>"@, from, mid + 37);
    // Where it ends.
    bytes::lemma_meets(behind_version(), "</string>"@, 0);
    bytes::lemma_found_through(plist, behind_version(), end, "</string>"@, 0);
    assert forall|i: int| two <= i < end implies !bytes::found_at(plist, "</string>"@, i) by {
        if bytes::found_at(plist, "</string>"@, i) {
            bytes::lemma_find(version, "</string>"@, 0);
            bytes::lemma_within(plist, version, behind_version(), two, "</string>"@, i);
        }
    }
    bytes::lemma_first(plist, "</string>"@, two, end);
}

/// The version of the lists of the bundle is read back from them.
pub proof fn law_version_reads_back(version: Seq<char>)
    requires
        is_plain_version(version),
    ensures
        plist_value(bundle_list(version), "CFBundleVersion"@) == Some(version),
        plist_value(payload_list(version), "CFBundleVersion"@) == Some(version),
{
    lemma_values_clear();
    lemma_front_clear("loader"@, "com.asmvik.yabai-osax"@, "yabai"@, "osax"@);
    lemma_version_value(
        plist_names("loader"@, "com.asmvik.yabai-osax"@, "yabai"@, "osax"@)
            + "</string>\n<key>CFBundleShortVersionString</key>\n<string>"@,
        version,
        "<key>OSAXHandlers</key>\n<dict>\n</dict>\n</dict>\n</plist>"@,
    );
    lemma_front_clear("payload"@, "com.asmvik.yabai-sa"@, "payload"@, "BNDL"@);
    lemma_version_value(
        plist_names("payload"@, "com.asmvik.yabai-sa"@, "payload"@, "BNDL"@)
            + "</string>\n<key>CFBundleShortVersionString</key>\n<string>"@,
        version,
        "<key>NSPrincipalClass</key>\n<string></string>\n</dict>\n</plist>"@,
    );
}

/// A version without a `<`, such as one of numbers and dots, is read back from the
/// lists of the bundle.
pub proof fn law_version_without_markup_reads_back(version: Seq<char>)
    requires
        !version.contains('<'),
    ensures
        is_plain_version(version),
        plist_value(bundle_list(version), "CFBundleVersion"@) == Some(version),
        plist_value(payload_list(version), "CFBundleVersion"@) == Some(version),
{
    reveal_strlit("</string>");
    reveal_strlit("<key>");
    let close = "</string>"@;
    let tag = key_tag("CFBundleVersion"@);
    assert(close[0] == '<' && tag[0] == '<');
    bytes::lemma_find(version, close, 0);
    bytes::lemma_find(version, tag, 0);
    assert forall|i: int| !bytes::found_at(version, close, i) by {
        if bytes::found_at(version, close, i) {
            assert(version.subrange(i, i + close.len())[0] == version[i]);
        }
    }
    assert forall|i: int| !bytes::found_at(version, tag, i) by {
        if bytes::found_at(version, tag, i) {
            assert(version.subrange(i, i + tag.len())[0] == version[i]);
        }
    }
    law_version_reads_back(version);
}

#[verifier::spinoff_prover]
proof fn lemma_head_executable()
    ensures
        plist_head().len() == 266,
        key_tag("CFBundleExecutable"@).len() == 29,
        "<string>"@.len() == 8,
        bytes::clear(plist_head(), key_tag("CFBundleExecutable"@), 0, 228),
        bytes::meets(plist_head(), key_tag("CFBundleExecutable"@), 228, 0),
        bytes::clear(plist_head(), "<string>"@, 257, 258),
        bytes::meets(plist_head(), "<string>"@, 258, 0),
{
    reveal_strlit("<?xml version=\"1.0\" encoding=\"UTF-8\"?>\n<!DOCTYPE plist PUBLIC \"-//Apple//DTD PLIST 1.0//EN\" \"http://www.apple.com/DTDs/PropertyList-1.0.dtd\">\n<plist version=\"1.0\">\n<dict>\n<key>CFBundleDevelopmentRegion</key>\n<string>en</string>\n<key>CFBundleExecutable</key>\n<string>");
    reveal_strlit("<key>");
    reveal_strlit("</key>");
    reveal_strlit("<string>");
    reveal_strlit("CFBundleExecutable");
    let h = plist_head();
    let t = key_tag("CFBundleExecutable"@);
    reveal_with_fuel(bytes::misses, 16);
    reveal_with_fuel(bytes::meets, 32);
    reveal_with_fuel(bytes::clear, 40);
    assert(bytes::clear(h, t, 190, 228));
    assert(bytes::clear(h, t, 152, 228));
    assert(bytes::clear(h, t, 114, 228));
    assert(bytes::clear(h, t, 76, 228));
    assert(bytes::clear(h, t, 38, 228));
}

/// What stands in a property list behind the name of the executable.
spec fn behind_executable() -> Seq<char> {
    "</string>\n<key>CFBundleIdentifier</key>\n<string>"@
}

#[verifier::spinoff_prover]
proof fn lemma_behind_executable()
    ensures
        bytes::meets(behind_executable(), "</string>"@, 0, 0),
        "</string>"@.len() == 9,
        bytes::clear("loader"@, "</string>"@, 0, "loader"@.len() as int),
        bytes::clear("payload"@, "</string>"@, 0, "payload"@.len() as int),
{
    reveal_strlit("</string>\n<key>CFBundleIdentifier</key>\n<string>");
    reveal_strlit("</string>");
    reveal_strlit("loader");
    reveal_strlit("payload");
    reveal_with_fuel(bytes::clear, 10);
    reveal_with_fuel(bytes::meets, 10);
}

proof fn lemma_executable_value(executable: Seq<char>, rest: Seq<char>)
    requires
        bytes::clear(executable, "</string>"@, 0, executable.len() as int),
    ensures
        plist_value(
            plist_head() + executable + behind_executable() + rest,
            "CFBundleExecutable"@,
        ) == Some(executable),
{
    lemma_head_executable();
    lemma_behind_executable();
    let plist = plist_head() + executable + behind_executable() + rest;
    let tag = key_tag("CFBundleExecutable"@);
    let end = 266 + executable.len() as int;
    assert(plist.subrange(0, 266) =~= plist_head());
    assert(plist.subrange(266, end) =~= executable);
    assert(plist.subrange(end, end + behind_executable().len()) =~= behind_executable());
    bytes::lemma_clear(plist, plist_head(), 0, tag, 0, 228);
    bytes::lemma_meets(plist_head(), tag, 228);
    bytes::lemma_found_through(plist, plist_head(), 0, tag, 228);
    bytes::lemma_first(plist, tag, 0, 228);
    bytes::lemma_clear(plist, plist_head(), 0, "<string>"@, 257, 258);
    bytes::lemma_meets(plist_head(), "<string>"@, 258);
    bytes::lemma_found_through(plist, plist_head(), 0, "<string>"@, 258);
    bytes::lemma_first(plist, "<string>"@, 257, 258);
    bytes::lemma_clear(plist, executable, 266, "</string>"@, 0, executable.len() as int);
    bytes::lemma_meets(behind_executable(), "</string>"@, 0);
    bytes::lemma_found_through(plist, behind_executable(), end, "</string>"@, 0);
    bytes::lemma_first(plist, "</string>"@, 266, end);
}

/// The list of the bundle names the loader, and that of the payload the payload,
/// whatever the version.
pub proof fn law_executables_read_back(version: Seq<char>)
    ensures
        plist_value(bundle_list(version), "CFBundleExecutable"@) == Some("loader"@),
        plist_value(payload_list(version), "CFBundleExecutable"@) == Some("payload"@),
{
    lemma_behind_executable();
    let front = plist_head().len() + "loader"@.len() + behind_executable().len();
    let rest = bundle_list(version).subrange(front as int, bundle_list(version).len() as int);
    assert(bundle_list(version) =~= plist_head() + "loader"@ + behind_executable() + rest);
    lemma_executable_value("loader"@, rest);
    let front = plist_head().len() + "payload"@.len() + behind_executable().len();
    let rest = payload_list(version).subrange(front as int, payload_list(version).len() as int);
    assert(payload_list(version) =~= plist_head() + "payload"@ + behind_executable() + rest);
    lemma_executable_value("payload"@, rest);
}

/// A key that does not stand in a property list has no value in it.
pub proof fn law_absent_key_has_no_value(plist: Seq<char>, key: Seq<char>)
    requires
        forall|i: int| !bytes::found_at(plist, key_tag(key), i),
    ensures
        plist_value(plist, key) is None,
{
    bytes::lemma_find(plist, key_tag(key), 0);
}

/// Whether an installed bundle, by its property list, is of a version.
pub fn version_is_current(plist: Option<&str>, version: &str) -> (r: bool)
    ensures
        r == (plist is Some && plist_value(plist->0@, "CFBundleVersion"@) == Some(version@)),
{
    match plist {
        Some(plist) => match plist_string_value(plist, "CFBundleVersion") {
            Some(found) => text::same(found.as_str(), version),
            None => false,
        },
        None => false,
    }
}

/// Whether a number is the processor type of the 64-bit ARM slice.
pub open spec fn is_arm64(cputype: nat) -> bool {
    cputype == 16_777_228
}

/// Whether a processor subtype, its capability byte aside, is that of arm64e.
pub open spec fn is_arm64e(cpusubtype: nat) -> bool {
    cpusubtype % 0x100_0000 == 2
}

/// Where the capability bytes of a binary are: their value, the place in the
/// header of a fat binary, and the place in the header of the slice.
pub ghost struct Caps {
    pub value: nat,
    pub fat: Option<int>,
    pub mach: Option<int>,
}

/// The capability bytes by the entry at `arch` of a fat binary, if it is the
/// arm64e slice.
pub open spec fn slice_caps(b: Seq<u8>, arch: int) -> Option<Caps> {
    let slice = bytes::be_word(b, arch + 8)->0 as int;
    if bytes::le_word(b, slice) == Some(0xfeed_facf_nat) && bytes::le_word(b, slice + 4) == Some(
        16_777_228_nat,
    ) && bytes::le_word(b, slice + 8) is Some && is_arm64e(bytes::le_word(b, slice + 8)->0) {
        Some(
            Caps {
                value: bytes::be_word(b, arch + 4)->0 / 0x100_0000,
                fat: Some(arch + 4),
                mach: Some(slice + 11),
            },
        )
    } else {
        None
    }
}

/// The capability bytes of a fat binary by its entries from `i` on: the first
/// arm64e entry decides. An entry that is cut off ends the search.
pub open spec fn fat_caps(b: Seq<u8>, i: int, count: int) -> Option<Caps>
    decreases count - i,
{
    let arch = 8 + i * 20;
    if i >= count {
        None
    } else {
        match (bytes::be_word(b, arch), bytes::be_word(b, arch + 4), bytes::be_word(b, arch + 8)) {
            (Some(cputype), Some(cpusubtype), Some(_)) => if is_arm64(cputype) && is_arm64e(
                cpusubtype,
            ) {
                slice_caps(b, arch)
            } else {
                fat_caps(b, i + 1, count)
            },
            _ => None,
        }
    }
}

/// The capability bytes of a thin binary.
pub open spec fn thin_caps(b: Seq<u8>) -> Option<Caps> {
    match (bytes::le_word(b, 0), bytes::le_word(b, 4), bytes::le_word(b, 8)) {
        (Some(magic), Some(cputype), Some(cpusubtype)) => if magic == 0xfeed_facf && is_arm64(
            cputype,
        ) && is_arm64e(cpusubtype) {
            Some(Caps { value: cpusubtype / 0x100_0000, fat: None, mach: Some(11) })
        } else {
            None
        },
        _ => None,
    }
}

/// The capability bytes of a binary.
pub open spec fn caps_of(b: Seq<u8>) -> Option<Caps> {
    match bytes::be_word(b, 0) {
        None => None,
        Some(magic) => if magic == 0xcafe_babe {
            match bytes::be_word(b, 4) {
                Some(count) => fat_caps(b, 0, count as int),
                None => None,
            }
        } else {
            thin_caps(b)
        },
    }
}

/// Whether a found value and places are the ones meant.
pub open spec fn is_caps(r: Option<(u8, Option<usize>, Option<usize>)>, caps: Option<Caps>) -> bool {
    match (r, caps) {
        (None, None) => true,
        (Some((value, fat, mach)), Some(c)) => {
            &&& value == c.value
            &&& same_place(fat, c.fat)
            &&& same_place(mach, c.mach)
        },
        _ => false,
    }
}

/// Whether the places found lie within a binary.
pub open spec fn places_fit(r: Option<(u8, Option<usize>, Option<usize>)>, b: Seq<u8>) -> bool {
    match r {
        Some((_, fat, mach)) => (fat is Some ==> fat->0 < b.len()) && (mach is Some ==> mach->0
            < b.len()),
        None => true,
    }
}

/// Whether two optional places are the same.
pub open spec fn same_place(r: Option<usize>, place: Option<int>) -> bool {
    match place {
        Some(p) => r is Some && r->0 == p,
        None => r is None,
    }
}

fn find_slice_caps(b: &Vec<u8>, arch: usize, cpusubtype: u32, slice: u32) -> (r: Option<
    (u8, Option<usize>, Option<usize>),
>)
    requires
        arch + 12 <= b@.len(),
        bytes::be_word(b@, arch + 4) == Some(cpusubtype as nat),
        bytes::be_word(b@, arch + 8) == Some(slice as nat),
    ensures
        is_caps(r, slice_caps(b@, arch as int)),
        places_fit(r, b@),
{
    let total = b.len();
    let slice = slice as usize;
    match bytes::u32_le(b, slice) {
        Some(magic) => if magic != 0xfeed_facf {
            return None;
        },
        None => {
            return None;
        },
    }
    match bytes::u32_le(b, slice + 4) {
        Some(cputype) => if cputype != 16_777_228 {
            return None;
        },
        None => {
            return None;
        },
    }
    match bytes::u32_le(b, slice + 8) {
        Some(subtype) => if subtype % 0x100_0000 != 2 {
            return None;
        },
        None => {
            return None;
        },
    }
    Some(((cpusubtype / 0x100_0000) as u8, Some(arch + 4), Some(slice + 11)))
}

fn find_fat_caps(b: &Vec<u8>, count: u32) -> (r: Option<(u8, Option<usize>, Option<usize>)>)
    ensures
        is_caps(r, fat_caps(b@, 0, count as int)),
        places_fit(r, b@),
{
    let total = b.len();
    if total < 8 {
        return None;
    }
    let mut arch: usize = 8;
    let mut i: u32 = 0;
    while i < count
        invariant
            i <= count,
            arch == 8 + i * 20,
            total == b@.len(),
            arch <= total,
            fat_caps(b@, 0, count as int) == fat_caps(b@, i as int, count as int),
        decreases count - i,
    {
        let cputype = match bytes::u32_be(b, arch) {
            Some(cputype) => cputype,
            None => {
                return None;
            },
        };
        let cpusubtype = match bytes::u32_be(b, arch + 4) {
            Some(cpusubtype) => cpusubtype,
            None => {
                return None;
            },
        };
        let slice = match bytes::u32_be(b, arch + 8) {
            Some(slice) => slice,
            None => {
                return None;
            },
        };
        if cputype == 16_777_228 && cpusubtype % 0x100_0000 == 2 {
            return find_slice_caps(b, arch, cpusubtype, slice);
        }
        if b.len() - arch < 20 {
            proof {
                let next = 8 + (i + 1) * 20;
                assert(next == arch + 20);
                assert(bytes::be_word(b@, next) is None);
                assert(fat_caps(b@, i + 1, count as int) is None);
            }
            return None;
        }
        arch += 20;
        i += 1;
    }
    None
}

/// Find the capability bytes of a binary: their value, the place in the header
/// of a fat binary, and the place in the header of the slice.
pub fn find_arm64e_caps(b: &Vec<u8>) -> (r: Option<(u8, Option<usize>, Option<usize>)>)
    ensures
        is_caps(r, caps_of(b@)),
        places_fit(r, b@),
{
    let magic = match bytes::u32_be(b, 0) {
        Some(magic) => magic,
        None => {
            return None;
        },
    };
    if magic == 0xcafe_babe {
        return match bytes::u32_be(b, 4) {
            Some(count) => find_fat_caps(b, count),
            None => None,
        };
    }
    match (bytes::u32_le(b, 0), bytes::u32_le(b, 4), bytes::u32_le(b, 8)) {
        (Some(magic), Some(cputype), Some(cpusubtype)) => if magic == 0xfeed_facf && cputype
            == 16_777_228 && cpusubtype % 0x100_0000 == 2 {
            Some(((cpusubtype / 0x100_0000) as u8, None, Some(11)))
        } else {
            None
        },
        _ => None,
    }
}

/// A binary with a byte set at an optional place.
pub open spec fn with_byte(b: Seq<u8>, place: Option<int>, value: u8) -> Seq<u8> {
    match place {
        Some(p) => b.update(p, value),
        None => b,
    }
}

/// Whether an optional place holds another byte.
pub open spec fn differs(b: Seq<u8>, place: Option<int>, value: u8) -> bool {
    match place {
        Some(p) => b[p] != value,
        None => false,
    }
}

/// The loader with the capability bytes of the Dock, if they differ and both can
/// be found.
pub open spec fn patched(dock: Seq<u8>, loader: Seq<u8>) -> Option<Seq<u8>> {
    match (caps_of(dock), caps_of(loader)) {
        (Some(want), Some(have)) => {
            let value = want.value as u8;
            if differs(loader, have.fat, value) || differs(loader, have.mach, value) {
                Some(with_byte(with_byte(loader, have.mach, value), have.fat, value))
            } else {
                None
            }
        },
        _ => None,
    }
}

/// Give the loader the capability bytes of the Dock. Nothing is returned where
/// there is nothing to change.
pub fn patch_loader(dock: &Vec<u8>, loader: Vec<u8>) -> (r: Option<Vec<u8>>)
    ensures
        match patched(dock@, loader@) {
            Some(bytes) => r is Some && r->0@ == bytes,
            None => r is None,
        },
{
    let want = match find_arm64e_caps(dock) {
        Some((want, _, _)) => want,
        None => {
            return None;
        },
    };
    let (fat, mach) = match find_arm64e_caps(&loader) {
        Some((_, fat, mach)) => (fat, mach),
        None => {
            return None;
        },
    };
    let fat_differs = match fat {
        Some(off) => loader[off] != want,
        None => false,
    };
    let mach_differs = match mach {
        Some(off) => loader[off] != want,
        None => false,
    };
    if !fat_differs && !mach_differs {
        return None;
    }
    let mut out = loader;
    if let Some(off) = mach {
        out.set(off, want);
    }
    if let Some(off) = fat {
        out.set(off, want);
    }
    Some(out)
}

proof fn lemma_fat_caps_fit(b: Seq<u8>, i: int, count: int)
    requires
        0 <= i,
    ensures
        match fat_caps(b, i, count) {
            Some(c) => c.fat is Some && 8 <= c.fat->0 < b.len() && c.mach is Some && 11 <= c.mach->0
                < b.len(),
            None => true,
        },
    decreases count - i,
{
    if i < count {
        lemma_fat_caps_fit(b, i + 1, count);
    }
}

/// The places of the capability bytes lie within the binary.
pub proof fn lemma_caps_fit(b: Seq<u8>)
    ensures
        match caps_of(b) {
            Some(c) => {
                &&& c.fat is Some ==> 0 <= c.fat->0 < b.len()
                &&& c.mach is Some
                &&& 0 <= c.mach->0 < b.len()
            },
            None => true,
        },
{
    if bytes::be_word(b, 0) == Some(0xcafe_babe_nat) && bytes::be_word(b, 4) is Some {
        lemma_fat_caps_fit(b, 0, bytes::be_word(b, 4)->0 as int);
    }
}

/// A loader that was patched holds the capability bytes of the Dock, and is
/// otherwise what it was.
pub proof fn law_patch_matches_dock(dock: Seq<u8>, loader: Seq<u8>, i: int)
    requires
        patched(dock, loader) is Some,
    ensures
        patched(dock, loader)->0.len() == loader.len(),
        !differs(patched(dock, loader)->0, caps_of(loader)->0.fat, caps_of(dock)->0.value as u8),
        !differs(patched(dock, loader)->0, caps_of(loader)->0.mach, caps_of(dock)->0.value as u8),
        0 <= i < loader.len() && caps_of(loader)->0.fat != Some(i) && caps_of(loader)->0.mach
            != Some(i) ==> patched(dock, loader)->0[i] == loader[i],
{
    lemma_caps_fit(loader);
}

/// Whether two binaries of one length differ at most in two bytes.
spec fn differ_at_most(a: Seq<u8>, b: Seq<u8>, p: int, q: int) -> bool {
    a.len() == b.len() && forall|i: int| 0 <= i < a.len() && i != p && i != q ==> a[i] == b[i]
}

proof fn lemma_word_kept(a: Seq<u8>, b: Seq<u8>, p: int, q: int, off: int)
    requires
        differ_at_most(a, b, p, q),
        !(off <= p < off + 4),
        !(off <= q < off + 4),
    ensures
        bytes::be_word(a, off) == bytes::be_word(b, off),
        bytes::le_word(a, off) == bytes::le_word(b, off),
{
    if 0 <= off && off + 4 <= a.len() {
        assert(bytes::word_at(a, off) =~= bytes::word_at(b, off));
    }
}

/// The three low bytes of a word decide whether it is the subtype of arm64e.
proof fn lemma_subtype(s: Seq<u8>)
    requires
        s.len() == 4,
    ensures
        is_arm64e(bytes::le_value(s)) == (s[0] as nat + 256 * (s[1] as nat) + 65536 * (s[2] as nat)
            == 2),
{
    bytes::lemma_word(s);
    let low = s[0] as nat + 256 * (s[1] as nat) + 65536 * (s[2] as nat);
    let high = s[3] as nat;
    assert(low < 16777216);
    assert((low + 16777216 * high) % 16777216 == low) by (nonlinear_arith)
        requires
            low < 16777216,
    ;
}

proof fn lemma_be_subtype_kept(a: Seq<u8>, b: Seq<u8>, p: int, q: int, off: int)
    requires
        differ_at_most(a, b, p, q),
        0 <= off,
        off + 4 <= a.len(),
        p == off || !(off <= p < off + 4),
        q == off || !(off <= q < off + 4),
    ensures
        is_arm64e(bytes::be_word(a, off)->0) == is_arm64e(bytes::be_word(b, off)->0),
{
    let s = bytes::word_at(a, off).reverse();
    let t = bytes::word_at(b, off).reverse();
    assert(s[0] == a[off + 3] && s[1] == a[off + 2] && s[2] == a[off + 1]);
    assert(t[0] == b[off + 3] && t[1] == b[off + 2] && t[2] == b[off + 1]);
    lemma_subtype(s);
    lemma_subtype(t);
}

proof fn lemma_le_subtype_kept(a: Seq<u8>, b: Seq<u8>, p: int, q: int, off: int)
    requires
        differ_at_most(a, b, p, q),
        0 <= off,
        off + 4 <= a.len(),
        p == off + 3 || !(off <= p < off + 4),
        q == off + 3 || !(off <= q < off + 4),
    ensures
        is_arm64e(bytes::le_word(a, off)->0) == is_arm64e(bytes::le_word(b, off)->0),
{
    let s = bytes::word_at(a, off);
    let t = bytes::word_at(b, off);
    assert(s[0] == a[off] && s[1] == a[off + 1] && s[2] == a[off + 2]);
    assert(t[0] == b[off] && t[1] == b[off + 1] && t[2] == b[off + 2]);
    lemma_subtype(s);
    lemma_subtype(t);
}

/// Where an entry of the table of a fat binary begins.
pub open spec fn entry_at(i: int) -> int {
    8 + i * 20
}

/// Whether a byte is none of those by which the search through the table goes, up
/// to the entry whose capability byte is at `fat`: the processor type of each
/// entry and its subtype, the capability byte aside, and the offset that the last
/// one gives.
pub open spec fn spares_table(fat: int, byte: int) -> bool {
    &&& !(fat + 4 <= byte < fat + 8)
    &&& forall|i: int|
        0 <= i && #[trigger] entry_at(i) + 4 <= fat ==> !(entry_at(i) <= byte < entry_at(i) + 4)
            && !(entry_at(i) + 5 <= byte < entry_at(i) + 8)
}

proof fn lemma_fat_kept(a: Seq<u8>, b: Seq<u8>, i: int, count: int)
    requires
        0 <= i,
        fat_caps(a, i, count) is Some,
        spares_table(fat_caps(a, i, count)->0.fat->0, fat_caps(a, i, count)->0.mach->0),
        differ_at_most(
            a,
            b,
            fat_caps(a, i, count)->0.fat->0,
            fat_caps(a, i, count)->0.mach->0,
        ),
    ensures
        fat_caps(b, i, count) is Some ==> fat_caps(b, i, count)->0.fat == fat_caps(
            a,
            i,
            count,
        )->0.fat && fat_caps(b, i, count)->0.mach == fat_caps(a, i, count)->0.mach,
        fat_caps(a, i, count)->0.fat->0 >= entry_at(i) + 4,
    decreases count - i,
{
    let arch = entry_at(i);
    let p = fat_caps(a, i, count)->0.fat->0;
    let q = fat_caps(a, i, count)->0.mach->0;
    let here = is_arm64(bytes::be_word(a, arch)->0) && is_arm64e(bytes::be_word(a, arch + 4)->0);
    if here {
        lemma_word_kept(a, b, p, q, arch + 8);
    } else {
        lemma_fat_kept(a, b, i + 1, count);
    }
    lemma_word_kept(a, b, p, q, arch);
    lemma_be_subtype_kept(a, b, p, q, arch + 4);
}

/// Patching is final: a loader that was patched needs no other patch, if it is
/// thin or if the byte patched in the slice is none by which the slice was found.
/// In the loaders left, one that needs another patch is one in which the first
/// patch made the search find other places.
pub proof fn law_patch_is_final(dock: Seq<u8>, loader: Seq<u8>)
    requires
        patched(dock, loader) is Some,
    ensures
        caps_of(loader)->0.fat is None || spares_table(
            caps_of(loader)->0.fat->0,
            caps_of(loader)->0.mach->0,
        ) ==> patched(dock, patched(dock, loader)->0) is None,
        patched(dock, patched(dock, loader)->0) is Some ==> caps_of(
            patched(dock, loader)->0,
        )->0.fat != caps_of(loader)->0.fat || caps_of(patched(dock, loader)->0)->0.mach != caps_of(
            loader,
        )->0.mach,
{
    let a = loader;
    let b = patched(dock, loader)->0;
    lemma_caps_fit(a);
    let q = caps_of(a)->0.mach->0;
    if bytes::be_word(a, 0) == Some(0xcafe_babe_nat) {
        let count = bytes::be_word(a, 4)->0 as int;
        lemma_fat_caps_fit(a, 0, count);
        let p = caps_of(a)->0.fat->0;
        assert(differ_at_most(a, b, p, q));
        if spares_table(p, q) {
            lemma_fat_kept(a, b, 0, count);
        }
        lemma_word_kept(a, b, p, q, 0);
        lemma_word_kept(a, b, p, q, 4);
    } else {
        assert(differ_at_most(a, b, q, q));
        lemma_word_kept(a, b, q, q, 0);
        lemma_word_kept(a, b, q, q, 4);
        lemma_le_subtype_kept(a, b, q, q, 8);
    }
}

/// Whether system integrity protection, by its configuration, lets files be
/// changed and other processes be opened.
pub fn is_sip_friendly(config: u32) -> (r: bool)
    ensures
        r == (config & 0x02 != 0 && config & 0x04 != 0),
{
    config & 0x02 != 0 && config & 0x04 != 0
}

/// Whether the boot arguments allow arm64e code.
pub fn is_arm64e_enabled(bootargs: Option<&Vec<u8>>) -> (r: bool)
    ensures
        r == (bootargs is Some && bytes::find(
            bytes::lossy_utf8(bootargs->0@),
            "-arm64e_preview_abi"@,
            0,
        ) is Some),
{
    match bootargs {
        Some(bytes) => allows_arm64e(bytes::lossy_string(bytes.as_slice()).as_str()),
        None => false,
    }
}

/// Whether boot arguments allow arm64e code.
pub fn allows_arm64e(bootargs: &str) -> (r: bool)
    ensures
        r == (bytes::find(bootargs@, "-arm64e_preview_abi"@, 0) is Some),
{
    bytes::contains(bootargs, "-arm64e_preview_abi")
}

/// One step of the installation.
#[derive(Debug, Clone, Copy, PartialEq, Eq, Structural)]
pub enum InstallStep {
    /// Remove the bundle that is there.
    RemoveOld,
    /// Make the directory at a place of the list.
    MakeDirectory(u8),
    /// Write the file at a place of the list.
    WriteFile(u8),
    /// Remove what was written so far.
    CleanUp,
    /// Patch and sign the binaries.
    Prepare,
    RestartDock,
    /// Stop with an exit code.
    Finished(i32),
}

/// The directories of the bundle, in the order in which they are made.
pub const DIRECTORY_COUNT: u8 = 3;

/// The files of the bundle, in the order in which they are written.
pub const FILE_COUNT: u8 = 4;

/// The first step of an installation.
pub fn first_install_step(installed: bool) -> (r: InstallStep)
    ensures
        r == (if installed {
            InstallStep::RemoveOld
        } else {
            InstallStep::MakeDirectory(0)
        }),
{
    if installed {
        InstallStep::RemoveOld
    } else {
        InstallStep::MakeDirectory(0)
    }
}

/// The step behind one that succeeded or failed.
pub open spec fn step_after(step: InstallStep, ok: bool) -> InstallStep {
    match step {
        InstallStep::RemoveOld => if ok {
            InstallStep::MakeDirectory(0)
        } else {
            InstallStep::Finished(1)
        },
        InstallStep::MakeDirectory(i) => if !ok {
            InstallStep::CleanUp
        } else if i + 1 < DIRECTORY_COUNT {
            InstallStep::MakeDirectory((i + 1) as u8)
        } else {
            InstallStep::WriteFile(0)
        },
        InstallStep::WriteFile(i) => if !ok {
            InstallStep::CleanUp
        } else if i + 1 < FILE_COUNT {
            InstallStep::WriteFile((i + 1) as u8)
        } else {
            InstallStep::Prepare
        },
        InstallStep::CleanUp => InstallStep::Finished(2),
        InstallStep::Prepare => InstallStep::RestartDock,
        InstallStep::RestartDock => InstallStep::Finished(0),
        InstallStep::Finished(code) => InstallStep::Finished(code),
    }
}

/// The step behind one that succeeded or failed.
pub fn next_install_step(step: InstallStep, ok: bool) -> (r: InstallStep)
    ensures
        r == step_after(step, ok),
{
    match step {
        InstallStep::RemoveOld => if ok {
            InstallStep::MakeDirectory(0)
        } else {
            InstallStep::Finished(1)
        },
        InstallStep::MakeDirectory(i) => if !ok {
            InstallStep::CleanUp
        } else if i < DIRECTORY_COUNT - 1 {
            InstallStep::MakeDirectory(i + 1)
        } else {
            InstallStep::WriteFile(0)
        },
        InstallStep::WriteFile(i) => if !ok {
            InstallStep::CleanUp
        } else if i < FILE_COUNT - 1 {
            InstallStep::WriteFile(i + 1)
        } else {
            InstallStep::Prepare
        },
        InstallStep::CleanUp => InstallStep::Finished(2),
        InstallStep::Prepare => InstallStep::RestartDock,
        InstallStep::RestartDock => InstallStep::Finished(0),
        InstallStep::Finished(code) => InstallStep::Finished(code),
    }
}

/// The step reached when the first `k` steps all succeed.
pub open spec fn step_reached(step: InstallStep, k: nat) -> InstallStep
    decreases k,
{
    if k == 0 {
        step
    } else {
        step_after(step_reached(step, (k - 1) as nat), true)
    }
}

/// An installation whose steps all succeed ends with code zero, after every
/// directory was made and every file was written.
pub proof fn law_installation_completes()
    ensures
        step_reached(InstallStep::MakeDirectory(0), 9) == InstallStep::Finished(0),
        step_reached(InstallStep::MakeDirectory(0), 2) == InstallStep::MakeDirectory(2),
        step_reached(InstallStep::MakeDirectory(0), 6) == InstallStep::WriteFile(3),
        step_reached(InstallStep::MakeDirectory(0), 7) == InstallStep::Prepare,
{
    reveal_with_fuel(step_reached, 10);
}

/// What comes of a loading that was tried.
#[derive(Debug)]
pub struct Validation {
    pub code: i32,
    pub restart_dock: bool,
    pub complaint: Option<String>,
}

/// Whether a validation is the right one of a payload that shook hands, or not.
pub open spec fn is_validation(
    v: Validation,
    handshake: Option<(Seq<char>, u32)>,
    version: Seq<char>,
    attributes: u32,
    installed_current: bool,
) -> bool {
    match handshake {
        Some((got, mask)) if got == version => if mask & attributes == attributes {
            v.code == 0 && !v.restart_dock && v.complaint is None
        } else {
            &&& v.code == 1
            &&& !v.restart_dock
            &&& v.complaint is Some
            &&& v.complaint->0@ == "yabai: scripting-addition payload (0x"@ + text::hex_upper(
                mask as nat,
            ) + ") doesn't support this macOS version!"@
        },
        _ => {
            &&& v.code == (if installed_current {
                0int
            } else {
                1
            })
            &&& v.restart_dock == installed_current
            &&& v.complaint is None
        },
    }
}

/// The validation of a payload that shook hands, or not. One of another version is
/// replaced by restarting the Dock, if the installed bundle is current.
pub fn validate(
    handshake: Option<(&str, u32)>,
    version: &str,
    attributes: u32,
    installed_current: bool,
) -> (r: Validation)
    ensures
        is_validation(
            r,
            match handshake {
                Some((got, mask)) => Some((got@, mask)),
                None => None,
            },
            version@,
            attributes,
            installed_current,
        ),
{
    if let Some((got, mask)) = handshake {
        if text::same(got, version) {
            if mask & attributes == attributes {
                return Validation { code: 0, restart_dock: false, complaint: None };
            }
            let mut out = "yabai: scripting-addition payload (0x".to_owned();
            text::push_hex_upper(&mut out, mask);
            out.append(") doesn't support this macOS version!");
            return Validation { code: 1, restart_dock: false, complaint: Some(out) };
        }
    }
    if installed_current {
        Validation { code: 0, restart_dock: true, complaint: None }
    } else {
        Validation { code: 1, restart_dock: false, complaint: None }
    }
}

/// What `--load-sa` does first.
#[derive(Debug)]
pub enum LoadPlan {
    /// Stop with exit code one and a complaint.
    Refuse(String),
    Install,
    /// Run the loader; on ARM its capability bytes are checked before.
    Inject { check_caps: bool },
}

/// The complaint that system integrity protection is on.
pub open spec fn sip_complaint() -> Seq<char> {
    "yabai: System Integrity Protection: Filesystem Protections and Debugging Restrictions must be disabled!"@
}

fn sip_error() -> (r: String)
    ensures
        r@ == sip_complaint(),
{
    "yabai: System Integrity Protection: Filesystem Protections and Debugging Restrictions must be disabled!".to_owned()
}

/// Decide what `--load-sa` does.
pub fn plan_load(
    is_root: bool,
    sip_friendly: bool,
    installed: bool,
    current: bool,
    is_arm: bool,
    arm64e_enabled: bool,
) -> (r: LoadPlan)
    ensures
        !is_root ==> r is Refuse && r->Refuse_0@
            == "yabai: scripting-addition must be loaded as root!"@,
        is_root && !sip_friendly ==> r is Refuse && r->Refuse_0@ == sip_complaint(),
        is_root && sip_friendly && !(installed && current) ==> r is Install,
        is_root && sip_friendly && installed && current && is_arm && !arm64e_enabled ==> r is Refuse
            && r->Refuse_0@ == "yabai: missing required nvram boot-arg '-arm64e_preview_abi'!"@,
        is_root && sip_friendly && installed && current && (!is_arm || arm64e_enabled) ==> r
            == (LoadPlan::Inject { check_caps: is_arm }),
{
    if !is_root {
        return LoadPlan::Refuse("yabai: scripting-addition must be loaded as root!".to_owned());
    }
    if !sip_friendly {
        return LoadPlan::Refuse(sip_error());
    }
    if !installed || !current {
        return LoadPlan::Install;
    }
    if is_arm && !arm64e_enabled {
        return LoadPlan::Refuse(
            "yabai: missing required nvram boot-arg '-arm64e_preview_abi'!".to_owned(),
        );
    }
    LoadPlan::Inject { check_caps: is_arm }
}

/// What `--uninstall-sa` does.
#[derive(Debug)]
pub enum RemovalPlan {
    /// Stop with exit code one and a complaint.
    Refuse(String),
    /// There is nothing to remove.
    Nothing,
    Remove,
}

/// Decide what `--uninstall-sa` does.
pub fn plan_uninstall(is_root: bool, sip_friendly: bool, installed: bool) -> (r: RemovalPlan)
    ensures
        !sip_friendly ==> r is Refuse && r->Refuse_0@ == sip_complaint(),
        sip_friendly && !is_root ==> r is Refuse && r->Refuse_0@
            == "yabai: scripting-addition must be uninstalled as root!"@,
        sip_friendly && is_root && !installed ==> r is Nothing,
        sip_friendly && is_root && installed ==> r is Remove,
{
    if !sip_friendly {
        return RemovalPlan::Refuse(sip_error());
    }
    if !is_root {
        return RemovalPlan::Refuse(
            "yabai: scripting-addition must be uninstalled as root!".to_owned(),
        );
    }
    if installed {
        RemovalPlan::Remove
    } else {
        RemovalPlan::Nothing
    }
}

/// The sudoers rule that lets a user load the scripting addition with the
/// executable of a digest.
pub open spec fn sudoers_text(user: Seq<char>, digest: Seq<char>, exe: Seq<char>) -> Seq<char> {
    user + " ALL=(root) NOPASSWD: sha256:"@ + digest + " "@ + exe + " --load-sa\n"@
}

/// The sudoers rule that lets a user load the scripting addition.
pub fn sudoers_rule(user: &str, digest: &str, exe: &str) -> (r: String)
    ensures
        r@ == sudoers_text(user@, digest@, exe@),
{
    let mut out = user.to_owned();
    out.append(" ALL=(root) NOPASSWD: sha256:");
    out.append(digest);
    out.append(" ");
    out.append(exe);
    out.append(" --load-sa\n");
    out
}

/// What is known before a sudoers rule is written, or the complaint.
#[derive(Debug)]
pub enum SudoersPlan {
    Refuse(String),
    Write(String),
}

/// Decide whether a sudoers rule can be written, and which.
pub fn plan_sudoers(
    is_root: bool,
    user: Option<&str>,
    exe: Option<&str>,
    digest: Option<&str>,
) -> (r: SudoersPlan)
    ensures
        !is_root ==> r is Refuse && r->Refuse_0@
            == "yabai: sudoers rule must be installed as root! run 'sudo yabai --install-sudoers'"@,
        is_root && (user is None || user->0@.len() == 0) ==> r is Refuse && r->Refuse_0@
            == "yabai: cannot determine invoking user (env SUDO_USER not set)!"@,
        is_root && user is Some && user->0@.len() > 0 && exe is None ==> r is Refuse && r->Refuse_0@
            == "yabai: unable to retrieve path of executable!"@,
        is_root && user is Some && user->0@.len() > 0 && exe is Some && digest is None ==> r
            is Refuse && r->Refuse_0@ == "yabai: unable to compute sha256 of '"@ + exe->0@ + "'!"@,
        is_root && user is Some && user->0@.len() > 0 && exe is Some && digest is Some ==> r
            is Write && r->Write_0@ == sudoers_text(user->0@, digest->0@, exe->0@),
{
    if !is_root {
        return SudoersPlan::Refuse(
            "yabai: sudoers rule must be installed as root! run 'sudo yabai --install-sudoers'".to_owned(),
        );
    }
    let user = match user {
        Some(user) => if text::chars_of(user).len() == 0 {
            return SudoersPlan::Refuse(
                "yabai: cannot determine invoking user (env SUDO_USER not set)!".to_owned(),
            );
        } else {
            user
        },
        None => {
            return SudoersPlan::Refuse(
                "yabai: cannot determine invoking user (env SUDO_USER not set)!".to_owned(),
            );
        },
    };
    let exe = match exe {
        Some(exe) => exe,
        None => {
            return SudoersPlan::Refuse(
                "yabai: unable to retrieve path of executable!".to_owned(),
            );
        },
    };
    match digest {
        Some(digest) => SudoersPlan::Write(sudoers_rule(user, digest, exe)),
        None => {
            let mut out = "yabai: unable to compute sha256 of '".to_owned();
            out.append(exe);
            out.append("'!");
            SudoersPlan::Refuse(out)
        },
    }
}

/// Where the sudoers rule stands, and where it stands before it is known to be
/// good.
pub const SUDOERS_PATH: &'static str = "/private/etc/sudoers.d/yabai";

pub const SUDOERS_TMP_PATH: &'static str = "/private/etc/sudoers.d/yabai.tmp";

/// The steps that put a sudoers rule in place.
#[derive(Debug, Clone, Copy, PartialEq, Eq, Structural)]
pub enum SudoersStep {
    /// Write the rule to the temporary place.
    Write,
    /// Take the permissions to write away.
    Restrict,
    /// Have the rule checked.
    Check,
    /// Move the rule to its place.
    Move,
    /// The rule is in place.
    Finished,
}

/// The step behind one that succeeded.
pub open spec fn sudoers_step_after(step: SudoersStep) -> SudoersStep {
    match step {
        SudoersStep::Write => SudoersStep::Restrict,
        SudoersStep::Restrict => SudoersStep::Check,
        SudoersStep::Check => SudoersStep::Move,
        SudoersStep::Move => SudoersStep::Finished,
        SudoersStep::Finished => SudoersStep::Finished,
    }
}

/// The complaint about a step that failed.
pub open spec fn sudoers_complaint(step: SudoersStep) -> Seq<char> {
    match step {
        SudoersStep::Write => "yabai: failed to write '"@ + SUDOERS_TMP_PATH@ + "'!"@,
        SudoersStep::Restrict => "yabai: failed to set permissions on '"@ + SUDOERS_TMP_PATH@
            + "'!"@,
        SudoersStep::Check => {
            "yabai: generated sudoers rule failed 'visudo -c' validation; not installing!"@
        },
        _ => "yabai: failed to move sudoers rule into place at '"@ + SUDOERS_PATH@ + "'!"@,
    }
}

/// The step behind one that succeeded, or the complaint about one that failed and
/// whether the temporary file is to be discarded.
pub fn next_sudoers_step(step: SudoersStep, ok: bool) -> (r: Result<SudoersStep, (String, bool)>)
    ensures
        ok || step is Finished ==> r == Ok::<SudoersStep, (String, bool)>(sudoers_step_after(step)),
        !ok && !(step is Finished) ==> {
            &&& r is Err
            &&& r->Err_0.0@ == sudoers_complaint(step)
            &&& r->Err_0.1 == !(step is Write)
        },
{
    match step {
        SudoersStep::Write => if ok {
            Ok(SudoersStep::Restrict)
        } else {
            Err((about_path("yabai: failed to write '", SUDOERS_TMP_PATH, "'!"), false))
        },
        SudoersStep::Restrict => if ok {
            Ok(SudoersStep::Check)
        } else {
            Err((about_path("yabai: failed to set permissions on '", SUDOERS_TMP_PATH, "'!"), true))
        },
        SudoersStep::Check => if ok {
            Ok(SudoersStep::Move)
        } else {
            Err(
                (
                    "yabai: generated sudoers rule failed 'visudo -c' validation; not installing!".to_owned(),
                    true,
                ),
            )
        },
        SudoersStep::Move => if ok {
            Ok(SudoersStep::Finished)
        } else {
            Err(
                (
                    about_path(
                        "yabai: failed to move sudoers rule into place at '",
                        SUDOERS_PATH,
                        "'!",
                    ),
                    true,
                ),
            )
        },
        SudoersStep::Finished => Ok(SudoersStep::Finished),
    }
}

/// A sentence around a path.
fn about_path(before: &str, path: &str, after: &str) -> (r: String)
    ensures
        r@ == before@ + path@ + after@,
{
    let mut out = before.to_owned();
    out.append(path);
    out.append(after);
    out
}

/// What is said once the rule of a user is in place.
pub fn sudoers_installed(user: &str) -> (r: String)
    ensures
        r@ == "yabai: installed passwordless '--load-sa' sudoers rule at '"@ + SUDOERS_PATH@
            + "' for user '"@ + user@ + "'"@,
{
    let mut out = about_path(
        "yabai: installed passwordless '--load-sa' sudoers rule at '",
        SUDOERS_PATH,
        "' for user '",
    );
    out.append(user);
    out.append("'");
    out
}

/// What came of removing the sudoers rule.
#[derive(Debug, Clone, Copy, PartialEq, Eq, Structural)]
pub enum SudoersRemoval {
    /// Only root may remove it.
    Forbidden,
    Removed,
    Missing,
    Failed,
}

/// What is said of the removal of the sudoers rule.
pub open spec fn removal_text(removal: SudoersRemoval) -> Seq<char> {
    match removal {
        SudoersRemoval::Forbidden => {
            "yabai: sudoers rule must be uninstalled as root! run 'sudo yabai --uninstall-sudoers'"@
        },
        SudoersRemoval::Removed => "yabai: removed sudoers rule at '"@ + SUDOERS_PATH@ + "'"@,
        SudoersRemoval::Missing => "yabai: no sudoers rule installed at '"@ + SUDOERS_PATH@ + "'"@,
        SudoersRemoval::Failed => "yabai: failed to remove '"@ + SUDOERS_PATH@ + "'!"@,
    }
}

/// What is said of the removal of the sudoers rule, and whether all is well: a
/// rule that was not there is as good as removed.
pub fn report_sudoers_removal(removal: SudoersRemoval) -> (r: (String, bool))
    ensures
        r.0@ == removal_text(removal),
        r.1 == (removal is Removed || removal is Missing),
{
    match removal {
        SudoersRemoval::Forbidden => (
            "yabai: sudoers rule must be uninstalled as root! run 'sudo yabai --uninstall-sudoers'".to_owned(),
            false,
        ),
        SudoersRemoval::Removed => (
            about_path("yabai: removed sudoers rule at '", SUDOERS_PATH, "'"),
            true,
        ),
        SudoersRemoval::Missing => (
            about_path("yabai: no sudoers rule installed at '", SUDOERS_PATH, "'"),
            true,
        ),
        SudoersRemoval::Failed => (
            about_path("yabai: failed to remove '", SUDOERS_PATH, "'!"),
            false,
        ),
    }
}

/// Whether a step is the one behind its predecessor, which succeeded.
pub open spec fn is_next_step(steps: Seq<SudoersStep>, i: int) -> bool {
    steps[i] == sudoers_step_after(steps[i - 1])
}

/// A rule that passed every step is in place, and it was checked before it was
/// moved there.
pub proof fn law_only_checked_rules_are_installed(steps: Seq<SudoersStep>)
    requires
        steps.len() > 0,
        steps[0] == SudoersStep::Write,
        forall|i: int| 0 < i < steps.len() ==> #[trigger] is_next_step(steps, i),
        steps.last() is Finished,
    ensures
        steps.len() >= 5,
        steps[2] is Check,
        steps[3] is Move,
        forall|i: int| 0 <= i < steps.len() && steps[i] is Move ==> i == 3,
{
    if steps.len() > 1 {
        assert(is_next_step(steps, 1));
    }
    if steps.len() > 2 {
        assert(is_next_step(steps, 2));
    }
    if steps.len() > 3 {
        assert(is_next_step(steps, 3));
    }
    if steps.len() > 4 {
        assert(is_next_step(steps, 4));
        lemma_finished_stays(steps, 4, steps.len() - 1);
        assert forall|i: int| 0 <= i < steps.len() && steps[i] is Move implies i == 3 by {
            if i >= 4 {
                lemma_finished_stays(steps, 4, i);
            }
        }
    }
}

proof fn lemma_finished_stays(steps: Seq<SudoersStep>, from: int, to: int)
    requires
        0 <= from <= to < steps.len(),
        steps[from] is Finished,
        forall|i: int| 0 < i < steps.len() ==> #[trigger] is_next_step(steps, i),
    ensures
        steps[to] is Finished,
    decreases to - from,
{
    if from < to {
        assert(is_next_step(steps, from + 1));
        lemma_finished_stays(steps, from + 1, to);
    }
}

/// Whether a character is a hexadecimal digit.
pub open spec fn is_hex_digit(c: char) -> bool {
    '0' <= c <= '9' || 'a' <= c <= 'f' || 'A' <= c <= 'F'
}

/// Where the first word of a text starts.
pub open spec fn word_start(s: Seq<char>, from: int) -> int
    decreases s.len() - from,
{
    if from < s.len() && bytes::is_white_space(s[from]) {
        word_start(s, from + 1)
    } else {
        from
    }
}

/// Where the word that starts at a place ends.
pub open spec fn word_end(s: Seq<char>, from: int) -> int
    decreases s.len() - from,
{
    if from < s.len() && !bytes::is_white_space(s[from]) {
        word_end(s, from + 1)
    } else {
        from
    }
}

/// The first word of a text.
pub open spec fn first_word(s: Seq<char>) -> Seq<char> {
    let start = word_start(s, 0);
    s.subrange(start, word_end(s, start))
}

/// Whether a word is a digest of 32 bytes in hexadecimal.
pub open spec fn is_digest(word: Seq<char>) -> bool {
    word.len() == 64 && forall|i: int| 0 <= i < word.len() ==> is_hex_digit(#[trigger] word[i])
}

/// The digest at the head of what the digest tool printed.
pub fn digest_word(output: &str) -> (r: Option<String>)
    ensures
        is_digest(first_word(output@)) ==> r is Some && r->0@ == first_word(output@),
        !is_digest(first_word(output@)) ==> r is None,
{
    let chars = text::chars_of(output);
    let mut start: usize = 0;
    while start < chars.len() && chars[start].is_whitespace()
        invariant
            start <= chars@.len(),
            word_start(chars@, 0) == word_start(chars@, start as int),
        decreases chars.len() - start,
    {
        start += 1;
    }
    let mut end: usize = start;
    while end < chars.len() && !chars[end].is_whitespace()
        invariant
            start <= end <= chars@.len(),
            word_end(chars@, start as int) == word_end(chars@, end as int),
        decreases chars.len() - end,
    {
        end += 1;
    }
    let ghost word = chars@.subrange(start as int, end as int);
    assert(word == first_word(output@));
    if end - start != 64 {
        return None;
    }
    let mut i: usize = start;
    while i < end
        invariant
            start <= i <= end <= chars@.len(),
            word == chars@.subrange(start as int, end as int),
            word == first_word(output@),
            forall|j: int| 0 <= j < i - start ==> is_hex_digit(#[trigger] word[j]),
        decreases end - i,
    {
        let c = chars[i];
        assert(word[i - start] == c);
        if !('0' <= c && c <= '9' || 'a' <= c && c <= 'f' || 'A' <= c && c <= 'F') {
            return None;
        }
        i += 1;
    }
    Some(chars_between(&chars, start, end))
}

/// A step of the installation that fails ends it: with code one if the old bundle
/// cannot be removed, else with code two after what was written is removed again.
pub proof fn law_failed_installation(i: u8)
    ensures
        step_after(InstallStep::RemoveOld, false) == InstallStep::Finished(1),
        step_after(InstallStep::RemoveOld, true) == InstallStep::MakeDirectory(0),
        step_after(InstallStep::MakeDirectory(i), false) == InstallStep::CleanUp,
        step_after(InstallStep::WriteFile(i), false) == InstallStep::CleanUp,
        step_after(InstallStep::CleanUp, true) == InstallStep::Finished(2),
        step_after(InstallStep::CleanUp, false) == InstallStep::Finished(2),
        step_after(InstallStep::Prepare, false) == InstallStep::RestartDock,
        step_after(InstallStep::RestartDock, false) == InstallStep::Finished(0),
{
}

/// A payload of the version expected is good if it has every attribute, and is
/// complained of if not; one of another version, or none, is replaced by restarting
/// the Dock if the installed bundle is current, and is a failure if not.
pub proof fn law_validations(
    v: Validation,
    got: Seq<char>,
    mask: u32,
    version: Seq<char>,
    attributes: u32,
    current: bool,
)
    ensures
        is_validation(v, Some((version, mask)), version, attributes, current) ==> {
            &&& mask & attributes == attributes ==> v.code == 0 && !v.restart_dock
                && v.complaint is None
            &&& mask & attributes != attributes ==> v.code == 1 && !v.restart_dock
                && v.complaint is Some
        },
        (is_validation(v, None, version, attributes, current) || got != version && is_validation(
            v,
            Some((got, mask)),
            version,
            attributes,
            current,
        )) ==> {
            &&& current ==> v.code == 0 && v.restart_dock && v.complaint is None
            &&& !current ==> v.code == 1 && !v.restart_dock && v.complaint is None
        },
{
}

/// The capability byte found in a binary stands at the place found for it: in the
/// table of a fat binary, or in the header of a thin one.
pub proof fn law_capability_stands_at_its_place(b: Seq<u8>)
    requires
        caps_of(b) is Some,
    ensures
        caps_of(b)->0.fat matches Some(p) ==> 0 <= p < b.len() && caps_of(b)->0.value == b[p],
        caps_of(b)->0.fat is None ==> caps_of(b)->0.mach == Some(11int) && b.len() >= 12 && caps_of(
            b,
        )->0.value == b[11],
{
    let magic = bytes::be_word(b, 0)->0;
    if magic == 0xcafe_babe {
        lemma_fat_value(b, 0, bytes::be_word(b, 4)->0 as int);
    } else {
        bytes::lemma_word(bytes::word_at(b, 8));
        assert(bytes::word_at(b, 8)[3] == b[11]);
    }
}

proof fn lemma_fat_value(b: Seq<u8>, i: int, count: int)
    requires
        0 <= i,
        fat_caps(b, i, count) is Some,
    ensures
        fat_caps(b, i, count)->0.fat matches Some(p) && 0 <= p < b.len() && fat_caps(
            b,
            i,
            count,
        )->0.value == b[p],
    decreases count - i,
{
    let arch = 8 + i * 20;
    let cputype = bytes::be_word(b, arch)->0;
    let cpusubtype = bytes::be_word(b, arch + 4)->0;
    if is_arm64(cputype) && is_arm64e(cpusubtype) {
        let word = bytes::word_at(b, arch + 4);
        bytes::lemma_word(word.reverse());
        assert(word.reverse()[3] == b[arch + 4]);
    } else {
        lemma_fat_value(b, i + 1, count);
    }
}

/// The first word of a text holds no white space, has none but white space before it,
/// and ends at white space or with the text.
pub proof fn law_first_word(s: Seq<char>, i: int)
    ensures
        ({
            let start = word_start(s, 0);
            let end = word_end(s, start);
            &&& 0 <= start <= end <= s.len()
            &&& first_word(s) == s.subrange(start, end)
            &&& 0 <= i < start ==> bytes::is_white_space(s[i])
            &&& start <= i < end ==> !bytes::is_white_space(s[i])
            &&& end < s.len() && start < s.len() ==> start < end && bytes::is_white_space(s[end])
        }),
{
    lemma_word_start(s, 0, i);
    lemma_word_end(s, word_start(s, 0), i);
}

proof fn lemma_word_start(s: Seq<char>, from: int, i: int)
    requires
        0 <= from <= s.len(),
    ensures
        from <= word_start(s, from) <= s.len(),
        from <= i < word_start(s, from) ==> bytes::is_white_space(s[i]),
        word_start(s, from) < s.len() ==> !bytes::is_white_space(s[word_start(s, from)]),
    decreases s.len() - from,
{
    if from < s.len() && bytes::is_white_space(s[from]) {
        lemma_word_start(s, from + 1, i);
    }
}

proof fn lemma_word_end(s: Seq<char>, from: int, i: int)
    requires
        0 <= from <= s.len(),
    ensures
        from <= word_end(s, from) <= s.len(),
        from <= i < word_end(s, from) ==> !bytes::is_white_space(s[i]),
        word_end(s, from) < s.len() ==> bytes::is_white_space(s[word_end(s, from)]),
    decreases s.len() - from,
{
    if from < s.len() && !bytes::is_white_space(s[from]) {
        lemma_word_end(s, from + 1, i);
    }
}

/// The steps of a sudoers rule come one after the other, and each that fails is
/// complained of in its own words.
pub proof fn law_sudoers_steps()
    ensures
        sudoers_step_after(SudoersStep::Write) == SudoersStep::Restrict,
        sudoers_step_after(SudoersStep::Restrict) == SudoersStep::Check,
        sudoers_step_after(SudoersStep::Check) == SudoersStep::Move,
        sudoers_step_after(SudoersStep::Move) == SudoersStep::Finished,
        sudoers_complaint(SudoersStep::Write) == "yabai: failed to write '"@ + SUDOERS_TMP_PATH@
            + "'!"@,
        sudoers_complaint(SudoersStep::Restrict) == "yabai: failed to set permissions on '"@
            + SUDOERS_TMP_PATH@ + "'!"@,
        sudoers_complaint(SudoersStep::Check)
            == "yabai: generated sudoers rule failed 'visudo -c' validation; not installing!"@,
        sudoers_complaint(SudoersStep::Move)
            == "yabai: failed to move sudoers rule into place at '"@ + SUDOERS_PATH@ + "'!"@,
{
}

/// A sudoers rule is the user's, for the executable of the digest alone, and to load
/// the scripting addition alone.
pub proof fn law_sudoers_rule(user: Seq<char>, digest: Seq<char>, exe: Seq<char>)
    ensures
        ({
            let rule = sudoers_text(user, digest, exe);
            let middle = " ALL=(root) NOPASSWD: sha256:"@;
            let end = " --load-sa\n"@;
            &&& rule.take(user.len() as int) == user
            &&& rule.subrange(user.len() as int, (user.len() + middle.len()) as int) == middle
            &&& rule.subrange(
                (user.len() + middle.len()) as int,
                (user.len() + middle.len() + digest.len()) as int,
            ) == digest
            &&& rule.subrange(
                (user.len() + middle.len() + digest.len() + 1) as int,
                (rule.len() - end.len()) as int,
            ) == exe
            &&& rule.skip((rule.len() - end.len()) as int) == end
        }),
{
    let rule = sudoers_text(user, digest, exe);
    let middle = " ALL=(root) NOPASSWD: sha256:"@;
    let end = " --load-sa\n"@;
    reveal_strlit(" ");
    assert(" "@.len() == 1);
    assert(rule.take(user.len() as int) =~= user);
    assert(rule.subrange(user.len() as int, (user.len() + middle.len()) as int) =~= middle);
    assert(rule.subrange(
        (user.len() + middle.len()) as int,
        (user.len() + middle.len() + digest.len()) as int,
    ) =~= digest);
    assert(rule.subrange(
        (user.len() + middle.len() + digest.len() + 1) as int,
        (rule.len() - end.len()) as int,
    ) =~= exe);
    assert(rule.skip((rule.len() - end.len()) as int) =~= end);
}

/// `--load-sa` is for root where system integrity protection allows it; it installs a
/// bundle that is missing or not current, and else runs the loader, on ARM only where
/// arm64e code is allowed, and then with its capability bytes checked.
pub proof fn law_load_plans(
    is_root: bool,
    sip_friendly: bool,
    installed: bool,
    current: bool,
    is_arm: bool,
    arm64e: bool,
    r: LoadPlan,
)
    requires
        call_ensures(plan_load, (is_root, sip_friendly, installed, current, is_arm, arm64e), r),
    ensures
        r is Install ==> is_root && sip_friendly && !(installed && current),
        r matches LoadPlan::Inject { check_caps } ==> is_root && sip_friendly && installed && current
            && check_caps == is_arm && (is_arm ==> arm64e),
        r is Refuse ==> !is_root || !sip_friendly || is_arm && !arm64e,
        is_root && sip_friendly && !installed ==> r is Install,
        is_root && sip_friendly && !current ==> r is Install,
        is_root && sip_friendly && installed && current && !is_arm ==> r is Inject,
{
}

/// `--uninstall-sa` removes a bundle that is there, for root where system integrity
/// protection allows it.
pub proof fn law_uninstall_plans(
    is_root: bool,
    sip_friendly: bool,
    installed: bool,
    r: RemovalPlan,
)
    requires
        call_ensures(plan_uninstall, (is_root, sip_friendly, installed), r),
    ensures
        r is Remove <==> is_root && sip_friendly && installed,
        r is Nothing <==> is_root && sip_friendly && !installed,
        r is Refuse <==> !is_root || !sip_friendly,
{
}

/// A sudoers rule is written for root alone, for a user, an executable and a digest that
/// are all known.
pub proof fn law_sudoers_plans(
    is_root: bool,
    user: &str,
    exe: &str,
    digest: &str,
    r: SudoersPlan,
    without_digest: SudoersPlan,
    without_user: SudoersPlan,
)
    requires
        call_ensures(plan_sudoers, (is_root, Some(user), Some(exe), Some(digest)), r),
        call_ensures(
            plan_sudoers,
            (is_root, Some(user), Some(exe), None::<&str>),
            without_digest,
        ),
        call_ensures(
            plan_sudoers,
            (is_root, None::<&str>, Some(exe), Some(digest)),
            without_user,
        ),
    ensures
        r is Write <==> is_root && user@.len() > 0,
        r matches SudoersPlan::Write(rule) ==> rule@ == user@ + " ALL=(root) NOPASSWD: sha256:"@
            + digest@ + " "@ + exe@ + " --load-sa\n"@,
        without_digest is Refuse,
        without_user is Refuse,
{
}

/// Protection lets files be changed and processes be opened only if both its flags are
/// set; an old bundle is removed first; a word is a digest if it has the digits of 32
/// bytes.
pub proof fn law_loader_checks(config: u32, friendly: bool, installed: bool, first: InstallStep)
    requires
        call_ensures(is_sip_friendly, (config,), friendly),
        call_ensures(first_install_step, (installed,), first),
    ensures
        friendly ==> config & 0x02 != 0,
        friendly ==> config & 0x04 != 0,
        config & 0x02 != 0 && config & 0x04 != 0 ==> friendly,
        installed ==> first == InstallStep::RemoveOld,
        !installed ==> first == InstallStep::MakeDirectory(0),
{
}

/// A digest is the first word of what the tool printed, if that is 64 hexadecimal
/// digits.
pub proof fn law_digest_words(output: &str, r: Option<String>)
    requires
        call_ensures(digest_word, (output,), r),
    ensures
        r matches Some(word) ==> word@ == first_word(output@) && word@.len() == 64 && forall|i: int|
            0 <= i < 64 ==> '0' <= #[trigger] word@[i] <= '9' || 'a' <= word@[i] <= 'f' || 'A'
                <= word@[i] <= 'F',
        r is None ==> first_word(output@).len() != 64 || exists|i: int|
            0 <= i < 64 && !('0' <= #[trigger] first_word(output@)[i] <= '9' || 'a' <= first_word(
                output@,
            )[i] <= 'f' || 'A' <= first_word(output@)[i] <= 'F'),
{
    let word = first_word(output@);
    if r is Some {
        assert forall|i: int| 0 <= i < 64 implies '0' <= #[trigger] word[i] <= '9' || 'a' <= word[i]
            <= 'f' || 'A' <= word[i] <= 'F' by {
            assert(is_hex_digit(word[i]));
        }
    } else if word.len() == 64 {
        let i = choose|i: int| 0 <= i < word.len() && !is_hex_digit(#[trigger] word[i]);
        assert(!('0' <= word[i] <= '9' || 'a' <= word[i] <= 'f' || 'A' <= word[i] <= 'F'));
    }
}

/// A step of the sudoers rule that fails ends the work, and all but the first leave a
/// temporary file to discard; a removal is well unless it is forbidden or fails.
pub proof fn law_sudoers_outcomes(
    step: SudoersStep,
    ok: bool,
    r: Result<SudoersStep, (String, bool)>,
    removal: SudoersRemoval,
    said: (String, bool),
)
    requires
        call_ensures(next_sudoers_step, (step, ok), r),
        call_ensures(report_sudoers_removal, (removal,), said),
    ensures
        ok ==> r is Ok,
        !ok && step != SudoersStep::Finished ==> r is Err,
        !ok && step == SudoersStep::Write ==> !r->Err_0.1,
        !ok && (step == SudoersStep::Restrict || step == SudoersStep::Check || step
            == SudoersStep::Move) ==> r->Err_0.1,
        said.1 <==> removal == SudoersRemoval::Removed || removal == SudoersRemoval::Missing,
        removal == SudoersRemoval::Removed ==> said.0@ == "yabai: removed sudoers rule at '"@
            + SUDOERS_PATH@ + "'"@,
        removal == SudoersRemoval::Missing ==> said.0@ == "yabai: no sudoers rule installed at '"@
            + SUDOERS_PATH@ + "'"@,
        removal == SudoersRemoval::Failed ==> said.0@ == "yabai: failed to remove '"@
            + SUDOERS_PATH@ + "'!"@,
{
}

} // verus!
