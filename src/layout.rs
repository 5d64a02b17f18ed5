//! Where the per-version cache directories live below the storage root.
use vstd::prelude::*;
use vstd::string::StringExecFns;

verus! {

/// Oldest product version whose cache directory is scanned.
pub const MINIMUM_VERSION: u16 = 2018;

/// Newest product version whose cache directory is scanned.
pub const MAXIMUM_VERSION: u16 = 2038;

/// Leading text of a version folder's name; the version number follows it.
pub const PRODUCT_PREFIX: &'static str = "Autodesk Revit ";

/// Name of the cache directory inside a version folder.
pub const CACHE_SUBDIR: &'static str = "CollaborationCache";

/// The decimal digit character for `d < 10`.
pub open spec fn digit_char(d: nat) -> char {
    (('0' as nat) + d) as char
}

/// The decimal notation of `n`, without leading zeros.
pub open spec fn decimal(n: nat) -> Seq<char>
    decreases n,
{
    if n < 10 {
        seq![digit_char(n)]
    } else {
        decimal(n / 10).push(digit_char(n % 10))
    }
}

/// The name of the folder that holds version `v`: the product prefix, then `v`
/// in decimal.
pub open spec fn version_folder_spec(v: u16) -> Seq<char> {
    PRODUCT_PREFIX@ + decimal(v as nat)
}

/// The versions that a scan visits, in ascending order.
pub open spec fn versions_spec() -> Seq<u16> {
    Seq::new(
        (MAXIMUM_VERSION - MINIMUM_VERSION + 1) as nat,
        |i: int| (MINIMUM_VERSION + i) as u16,
    )
}

fn digit_str(d: u16) -> (r: &'static str)
    requires
        d < 10,
    ensures
        r@ == seq![digit_char(d as nat)],
{
    proof {
        reveal_strlit("0");
        reveal_strlit("1");
        reveal_strlit("2");
        reveal_strlit("3");
        reveal_strlit("4");
        reveal_strlit("5");
        reveal_strlit("6");
        reveal_strlit("7");
        reveal_strlit("8");
        reveal_strlit("9");
    }
    match d {
        0 => "0",
        1 => "1",
        2 => "2",
        3 => "3",
        4 => "4",
        5 => "5",
        6 => "6",
        7 => "7",
        8 => "8",
        _ => "9",
    }
}

/// Appends the decimal notation of `n` to `out`.
fn push_decimal(out: &mut String, n: u16)
    ensures
        final(out)@ == old(out)@ + decimal(n as nat),
    decreases n,
{
    if n >= 10 {
        push_decimal(out, n / 10);
    }
    out.append(digit_str(n % 10));
}

/// The name of the folder that holds version `v` below the storage root.
pub fn version_folder_name(v: u16) -> (r: String)
    ensures
        r@ == version_folder_spec(v),
{
    let mut out = String::from_str(PRODUCT_PREFIX);
    push_decimal(&mut out, v);
    out
}

/// The versions that a scan visits, oldest first.
pub fn scanned_versions() -> (r: Vec<u16>)
    ensures
        r@ == versions_spec(),
{
    let mut r: Vec<u16> = Vec::new();
    let mut v: u16 = MINIMUM_VERSION;
    while v <= MAXIMUM_VERSION
        invariant
            MINIMUM_VERSION <= v <= MAXIMUM_VERSION + 1,
            r@ =~= versions_spec().take(v - MINIMUM_VERSION),
        decreases MAXIMUM_VERSION + 1 - v,
    {
        r.push(v);
        v = v + 1;
    }
    assert(r@ =~= versions_spec());
    r
}

/// The configured storage root under which the version folders lie.
pub struct AppPaths {
    revit_cc_base: String,
}

impl AppPaths {
    /// Paths rooted at `base`.
    pub fn new(base: String) -> (r: AppPaths)
        ensures
            r.base()@ == base@,
    {
        AppPaths { revit_cc_base: base }
    }

    pub closed spec fn base(&self) -> String {
        self.revit_cc_base
    }

    /// The storage root.
    pub fn root(&self) -> (r: &String)
        ensures
            r@ == self.base()@,
    {
        &self.revit_cc_base
    }

    /// The path components, below the root, of the cache directory of
    /// version `v`: the version folder, then the cache folder.
    pub fn version_components(&self, v: u16) -> (r: Vec<String>)
        ensures
            r@.len() == 2,
            r@[0]@ == version_folder_spec(v),
            r@[1]@ == CACHE_SUBDIR@,
    {
        let mut r: Vec<String> = Vec::new();
        r.push(version_folder_name(v));
        r.push(String::from_str(CACHE_SUBDIR));
        r
    }
}

} // verus!
