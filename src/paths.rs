use vstd::prelude::*;

verus! {

/// The install layouts whose configuration stores are known.
#[derive(Clone, Copy, Debug, PartialEq, Eq, Structural)]
pub enum Platform {
    WindowsLayout,
    MacLayout,
}

/// The separator between the home directory and a relative candidate.
pub open spec fn separator(p: Platform) -> Seq<char> {
    match p {
        Platform::WindowsLayout => "\\"@,
        Platform::MacLayout => "/"@,
    }
}

/// The candidates below the home directory, most common layout first.
pub open spec fn home_candidates(p: Platform) -> Seq<Seq<char>> {
    match p {
        Platform::WindowsLayout => seq![
            "AppData\\Roaming\\Cursor\\User\\globalStorage\\storage.json"@,
            "AppData\\Programs\\cursor\\resources\\app\\package.json"@,
            "AppData\\cursor\\resources\\app\\package.json"@,
        ],
        Platform::MacLayout => seq![
            "Library/Application Support/Cursor/User/globalStorage/storage.json"@,
            "Applications/Cursor.app/Contents/Resources/storage.json"@,
            "Library/Application Support/Cursor/storage.json"@,
        ],
    }
}

/// The absolute system-wide candidates, tried after those below the home directory.
pub open spec fn system_candidates(p: Platform) -> Seq<Seq<char>> {
    match p {
        Platform::WindowsLayout => Seq::empty(),
        Platform::MacLayout => seq!["/Applications/Cursor.app/Contents/Resources/storage.json"@],
    }
}

/// Every candidate location, in priority order. Without a home directory
/// there is none.
pub open spec fn candidates_of(p: Platform, home: Seq<char>) -> Seq<Seq<char>> {
    if home.len() == 0 {
        Seq::empty()
    } else {
        home_candidates(p).map_values(|rel: Seq<char>| home + separator(p) + rel) + system_candidates(
            p,
        )
    }
}

/// Whether the existence report `e` says that candidate `i` exists.
pub open spec fn reported_existing(e: Seq<bool>, i: int) -> bool {
    0 <= i < e.len() && e[i]
}

fn home_candidate_list(p: Platform) -> (r: Vec<String>)
    ensures
        r@.map_values(|s: String| s@) == home_candidates(p),
{
    let r = match p {
        Platform::WindowsLayout => vec![
            String::from_str("AppData\\Roaming\\Cursor\\User\\globalStorage\\storage.json"),
            String::from_str("AppData\\Programs\\cursor\\resources\\app\\package.json"),
            String::from_str("AppData\\cursor\\resources\\app\\package.json"),
        ],
        Platform::MacLayout => vec![
            String::from_str("Library/Application Support/Cursor/User/globalStorage/storage.json"),
            String::from_str("Applications/Cursor.app/Contents/Resources/storage.json"),
            String::from_str("Library/Application Support/Cursor/storage.json"),
        ],
    };
    assert(r@.map_values(|s: String| s@) =~= home_candidates(p));
    r
}

fn system_candidate_list(p: Platform) -> (r: Vec<String>)
    ensures
        r@.map_values(|s: String| s@) == system_candidates(p),
{
    let r = match p {
        Platform::WindowsLayout => Vec::new(),
        Platform::MacLayout => vec![
            String::from_str("/Applications/Cursor.app/Contents/Resources/storage.json"),
        ],
    };
    assert(r@.map_values(|s: String| s@) =~= system_candidates(p));
    r
}

/// Every candidate location for `platform` and the home directory `home_dir`,
/// in priority order.
pub fn candidate_paths(platform: Platform, home_dir: &str) -> (r: Vec<String>)
    ensures
        r@.map_values(|s: String| s@) == candidates_of(platform, home_dir@),
{
    let mut r: Vec<String> = Vec::new();
    if home_dir.unicode_len() == 0 {
        assert(r@.map_values(|s: String| s@) =~= candidates_of(platform, home_dir@));
        return r;
    }
    let sep = match platform {
        Platform::WindowsLayout => "\\",
        Platform::MacLayout => "/",
    };
    let rel = home_candidate_list(platform);
    let ghost joined = home_candidates(platform).map_values(
        |q: Seq<char>| home_dir@ + separator(platform) + q,
    );
    let mut i: usize = 0;
    while i < rel.len()
        invariant
            0 <= i <= rel.len(),
            rel@.map_values(|s: String| s@) == home_candidates(platform),
            sep@ == separator(platform),
            joined == home_candidates(platform).map_values(
                |q: Seq<char>| home_dir@ + separator(platform) + q,
            ),
            r@.len() == i,
            forall|k: int| 0 <= k < i ==> #[trigger] r@[k]@ == joined[k],
        decreases rel.len() - i,
    {
        let mut full = String::from_str(home_dir);
        full.append(sep);
        full.append(rel[i].as_str());
        proof {
            assert(rel@.map_values(|s: String| s@)[i as int] == rel@[i as int]@);
            assert(joined[i as int] == home_dir@ + separator(platform) + home_candidates(
                platform,
            )[i as int]);
        }
        r.push(full);
        i = i + 1;
    }
    assert(r@.map_values(|s: String| s@) =~= joined);
    let sys = system_candidate_list(platform);
    let ghost sc = system_candidates(platform);
    let mut j: usize = 0;
    while j < sys.len()
        invariant
            0 <= j <= sys.len(),
            sys@.map_values(|s: String| s@) == sc,
            joined.len() == home_candidates(platform).len(),
            r@.len() == joined.len() + j,
            forall|k: int| 0 <= k < joined.len() ==> #[trigger] r@[k]@ == joined[k],
            forall|k: int| 0 <= k < j ==> #[trigger] r@[joined.len() + k]@ == sc[k],
        decreases sys.len() - j,
    {
        proof {
            assert(sys@.map_values(|s: String| s@)[j as int] == sys@[j as int]@);
        }
        r.push(sys[j].clone());
        j = j + 1;
    }
    proof {
        let m = r@.map_values(|s: String| s@);
        let t = joined + sc;
        assert forall|k: int| 0 <= k < t.len() implies m[k] == t[k] by {
            if k >= joined.len() {
                let kk = k - joined.len();
                assert(r@[joined.len() + kk]@ == sc[kk]);
            }
        }
        assert(m =~= t);
    }
    r
}

/// Candidate `i` is reported present, and no earlier one is.
pub open spec fn first_present(c: Seq<Seq<char>>, e: Seq<bool>, i: int) -> bool {
    &&& 0 <= i < c.len()
    &&& reported_existing(e, i)
    &&& forall|j: int| 0 <= j < i ==> !reported_existing(e, j)
}

/// The path that resolution picks from candidates `c` under the existence
/// report `e`: the first present candidate, or the empty sequence.
pub open spec fn resolved_path(c: Seq<Seq<char>>, e: Seq<bool>, r: Seq<char>) -> bool {
    ||| (r.len() == 0 && forall|i: int| 0 <= i < c.len() ==> !reported_existing(e, i))
    ||| exists|i: int| first_present(c, e, i) && r == c[i]
}

/// The configuration store's location: the first candidate that the
/// existence report `present` marks as present (entry `i` reports on candidate
/// `i`; a missing entry counts as absent), or the empty string when none is.
pub fn get_package_path(platform: Platform, home_dir: &str, present: &Vec<bool>) -> (r: String)
    ensures
        resolved_path(candidates_of(platform, home_dir@), present@, r@),
{
    let cands = candidate_paths(platform, home_dir);
    let mut i: usize = 0;
    while i < cands.len()
        invariant
            0 <= i <= cands.len(),
            cands@.map_values(|s: String| s@) == candidates_of(platform, home_dir@),
            forall|j: int| 0 <= j < i ==> !reported_existing(present@, j),
        decreases cands.len() - i,
    {
        if i < present.len() && present[i] {
            let found = cands[i].clone();
            proof {
                assert(cands@.map_values(|s: String| s@)[i as int] == cands@[i as int]@);
                assert(first_present(candidates_of(platform, home_dir@), present@, i as int));
            }
            return found;
        }
        i = i + 1;
    }
    String::new()
}

} // verus!
