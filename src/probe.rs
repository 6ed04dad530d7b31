use vstd::prelude::*;
use vstd::string::StringSliceAdditionalSpecFns;

verus! {

/// The bytes of `t` with every occurrence of `p` replaced by `r`, scanning
/// from the front and resuming after each replaced occurrence.
pub open spec fn replaced(t: Seq<u8>, p: Seq<u8>, r: Seq<u8>) -> Seq<u8>
    decreases t.len(),
{
    if t.len() == 0 || p.len() == 0 {
        t
    } else if t.len() >= p.len() && t.subrange(0, p.len() as int) == p {
        r + replaced(t.subrange(p.len() as int, t.len() as int), p, r)
    } else {
        seq![t[0]] + replaced(t.subrange(1, t.len() as int), p, r)
    }
}

/// The hardware probe that the application runs to read the platform UUID.
pub open spec fn probe_command() -> Seq<u8> {
    "ioreg -rd1 -c IOPlatformExpertDevice".spec_bytes()
}

/// The command put in its place: it prints a fresh lowercase UUID under the
/// name that the probe's output gives it.
pub open spec fn probe_substitute() -> Seq<u8> {
    "UUID=$(uuidgen | tr '[:upper:]' '[:lower:]');echo \"IOPlatformUUID = \"$UUID\";".spec_bytes()
}

/// The script's contents with every probe command replaced by the substitute.
pub open spec fn patched_script(t: Seq<u8>) -> Seq<u8> {
    replaced(t, probe_command(), probe_substitute())
}

fn occurs_at(text: &[u8], i: usize, pat: &[u8]) -> (r: bool)
    requires
        i + pat@.len() <= text@.len(),
    ensures
        r == (text@.subrange(i as int, i + pat@.len()) == pat@),
{
    let n = text.len();
    let mut j: usize = 0;
    while j < pat.len()
        invariant
            0 <= j <= pat@.len(),
            n == text@.len(),
            i + pat@.len() <= n,
            forall|k: int| 0 <= k < j ==> text@[i + k] == pat@[k],
        decreases pat@.len() - j,
    {
        if text[i + j] != pat[j] {
            assert(text@.subrange(i as int, i + pat@.len())[j as int] != pat@[j as int]);
            return false;
        }
        j = j + 1;
    }
    assert(text@.subrange(i as int, i + pat@.len()) =~= pat@);
    true
}

/// `text` with every occurrence of `pat` replaced by `rep`, leftmost first
/// and without overlap.
pub fn replace_all_bytes(text: &[u8], pat: &[u8], rep: &[u8]) -> (r: Vec<u8>)
    ensures
        r@ == replaced(text@, pat@, rep@),
{
    let n = text.len();
    let m = pat.len();
    let mut out: Vec<u8> = Vec::new();
    if m == 0 {
        let mut k: usize = 0;
        while k < n
            invariant
                0 <= k <= n,
                n == text@.len(),
                out@ =~= text@.subrange(0, k as int),
            decreases n - k,
        {
            out.push(text[k]);
            k = k + 1;
        }
        return out;
    }
    assert(text@.subrange(0, n as int) =~= text@);
    assert(out@ + text@ =~= text@);
    let mut i: usize = 0;
    while i < n
        invariant
            0 <= i <= n,
            n == text@.len(),
            m == pat@.len(),
            m > 0,
            out@ + replaced(text@.subrange(i as int, n as int), pat@, rep@) == replaced(
                text@,
                pat@,
                rep@,
            ),
        decreases n - i,
    {
        let ghost t = text@.subrange(i as int, n as int);
        if m <= n - i && occurs_at(text, i, pat) {
            proof {
                assert(t.subrange(0, m as int) =~= text@.subrange(i as int, i + m));
                assert(t.subrange(m as int, t.len() as int) =~= text@.subrange(i + m, n as int));
            }
            let ghost before = out@;
            let mut k: usize = 0;
            while k < rep.len()
                invariant
                    0 <= k <= rep@.len(),
                    out@ =~= before + rep@.subrange(0, k as int),
                decreases rep@.len() - k,
            {
                out.push(rep[k]);
                k = k + 1;
            }
            assert(rep@.subrange(0, rep@.len() as int) =~= rep@);
            assert(out@ + replaced(text@.subrange(i + m, n as int), pat@, rep@) =~= before + (
            rep@ + replaced(text@.subrange(i + m, n as int), pat@, rep@)));
            i = i + m;
        } else {
            proof {
                if m <= n - i {
                    assert(t.subrange(0, m as int) =~= text@.subrange(i as int, i + m));
                }
                assert(t.subrange(1, t.len() as int) =~= text@.subrange(i + 1, n as int));
            }
            let ghost before = out@;
            out.push(text[i]);
            assert(out@ + replaced(text@.subrange(i + 1, n as int), pat@, rep@) =~= before + (
            seq![t[0]] + replaced(text@.subrange(i + 1, n as int), pat@, rep@)));
            i = i + 1;
        }
    }
    assert(out@ + replaced(text@.subrange(n as int, n as int), pat@, rep@) =~= out@);
    out
}

/// The script's contents with every hardware probe command replaced by the
/// substitute that prints a fresh UUID.
pub fn patch_probe_script(contents: &[u8]) -> (r: Vec<u8>)
    ensures
        r@ == patched_script(contents@),
{
    let pat = "ioreg -rd1 -c IOPlatformExpertDevice".as_bytes();
    let rep = "UUID=$(uuidgen | tr '[:upper:]' '[:lower:]');echo \"IOPlatformUUID = \"$UUID\";".as_bytes();
    replace_all_bytes(contents, pat, rep)
}

/// Where the backup marker of `target` lives: beside it, with a suffix.
pub open spec fn backup_of(target: Seq<char>) -> Seq<char> {
    target + ".backup"@
}

/// The backup marker is made when the target could be opened and there is
/// no marker yet: it is never refreshed.
pub open spec fn backup_wanted(target_opened: bool, backup_exists: bool) -> bool {
    target_opened && !backup_exists
}

/// The backup marker's path for the script at `target`.
pub fn backup_path(target: &str) -> (r: String)
    ensures
        r@ == backup_of(target@),
{
    let mut r = String::from_str(target);
    r.append(".backup");
    r
}

/// Whether a probe patch must create the backup marker first.
pub fn needs_backup(target_opened: bool, backup_exists: bool) -> (r: bool)
    ensures
        r == backup_wanted(target_opened, backup_exists),
{
    target_opened && !backup_exists
}

/// The paths that exist after a probe patch of `target`, given those that
/// existed before.
pub open spec fn files_after_patch(files: Set<Seq<char>>, target: Seq<char>) -> Set<Seq<char>> {
    if backup_wanted(files.contains(target), files.contains(backup_of(target))) {
        files.insert(backup_of(target))
    } else {
        files
    }
}

/// A second probe patch of the same target creates no further file and does
/// not touch the marker: patching twice leaves the same files as patching
/// once, and after a patch of an existing target its marker exists.
pub proof fn law_backup_marker_once(files: Set<Seq<char>>, target: Seq<char>)
    ensures
        files_after_patch(files_after_patch(files, target), target) == files_after_patch(
            files,
            target,
        ),
        files.contains(target) ==> files_after_patch(files, target).contains(backup_of(target)),
{
}

} // verus!
