//! The target-side apply script.
//!
//! From a patch manifest the generator emits, deterministically, a
//! standalone POSIX shell script with exactly three operations: configure a
//! target root, apply the patch, exit.  Its apply operation backs every
//! affected file up into a fresh `bak_<timestamp>` directory beside the
//! script before any write, aborting whole if a single backup fails; writes
//! then proceed best-effort with failures echoed for the operator.  The
//! change entries ride along as comment lines with tab-separated fields,
//! which the script reads back from itself.

use vstd::prelude::*;
use crate::changeset::{ChangeEntryV, ChangeKind, ChangeKindV};
use crate::output::PatchManifest;

verus! {

/// The three operations of the generated script's menu.
#[derive(Clone, Copy, Debug, PartialEq, Eq, Structural)]
pub enum ScriptOp {
    ConfigureTarget,
    ApplyPatch,
    Exit,
}

/// What the script's menu does with one line of operator input; anything
/// unrecognized keeps the menu looping.
pub open spec fn script_op_spec(choice: Option<u8>) -> Option<ScriptOp> {
    match choice {
        Some(1u8) => Some(ScriptOp::ConfigureTarget),
        Some(2u8) => Some(ScriptOp::ApplyPatch),
        Some(3u8) => Some(ScriptOp::Exit),
        _ => None,
    }
}

/// Decodes one menu choice of the generated script's state machine.
pub fn script_op(choice: Option<u8>) -> (r: Option<ScriptOp>)
    ensures
        r == script_op_spec(choice),
{
    match choice {
        Some(1u8) => Some(ScriptOp::ConfigureTarget),
        Some(2u8) => Some(ScriptOp::ApplyPatch),
        Some(3u8) => Some(ScriptOp::Exit),
        _ => None,
    }
}

/// Configuring a target appends the new root to the persisted ordered list;
/// re-registering is the operator's business, not an error.
pub fn configure_target(targets: &mut Vec<String>, root: String)
    ensures
        final(targets).deep_view() == old(targets).deep_view().push(root@),
{
    let ghost before = targets.deep_view();
    let ghost r = root@;
    targets.push(root);
    proof {
        assert(targets.deep_view() =~= before.push(r));
    }
}

/// One bundled change entry, as the comment line the script reads back.
/// Fields are tab-separated, so a path holding spaces survives the trip.
pub open spec fn script_entry_line(e: ChangeEntryV) -> Seq<char> {
    match e.kind {
        ChangeKindV::Added => "#C A\t"@ + e.path,
        ChangeKindV::Modified => "#C M\t"@ + e.path,
        ChangeKindV::Deleted => "#C D\t"@ + e.path,
        ChangeKindV::Renamed(from) => "#C R\t"@ + from + "\t"@ + e.path,
    }
}

/// The fixed body of the apply script, line by line.
pub open spec fn script_preamble() -> Seq<Seq<char>> {
    seq![
        "#!/bin/sh"@,
        "# Patch apply tool: configure target roots, apply with backup, exit."@,
        "BASE=$(cd \"$(dirname \"$0\")\" && pwd)"@,
        "CONF=\"$BASE/targets.conf\""@,
        "BUNDLE=\"$BASE/bundle\""@,
        "STAMP=$(date +%Y%m%d_%H%M%S)"@,
        "changes() { sed -n 's/^#C //p' \"$0\"; }"@,
        "configure_target() {"@,
        "  printf 'new target root: '; read -r t"@,
        "  if [ -d \"$t\" ]; then printf '%s\\n' \"$t\" >> \"$CONF\"; else echo 'no such directory'; fi"@,
        "}"@,
        "backup_one() {"@,
        "  if [ -f \"$1/$2\" ]; then"@,
        "    mkdir -p \"$BAK/$(dirname \"$2\")\" && cp \"$1/$2\" \"$BAK/$2\" || return 1"@,
        "  fi"@,
        "}"@,
        "backup_all() {"@,
        "  BAK=\"$BASE/bak_$STAMP\""@,
        "  while IFS='\t' read -r kind a b; do"@,
        "    while read -r root; do"@,
        "      backup_one \"$root\" \"$a\" || return 1"@,
        "      [ -n \"$b\" ] && { backup_one \"$root\" \"$b\" || return 1; }"@,
        "    done < \"$CONF\""@,
        "  done <<EOF"@,
        "$(changes)"@,
        "EOF"@,
        "}"@,
        "write_all() {"@,
        "  while IFS='\t' read -r kind a b; do"@,
        "    while read -r root; do"@,
        "      case \"$kind\" in"@,
        "        A|M) mkdir -p \"$root/$(dirname \"$a\")\" && cp \"$BUNDLE/$a\" \"$root/$a\" || echo \"write failed: $a\" ;;"@,
        "        D) rm -f \"$root/$a\" ;;"@,
        "        R) rm -f \"$root/$a\" && mkdir -p \"$root/$(dirname \"$b\")\" && cp \"$BUNDLE/$b\" \"$root/$b\" || echo \"write failed: $b\" ;;"@,
        "      esac"@,
        "    done < \"$CONF\""@,
        "  done <<EOF"@,
        "$(changes)"@,
        "EOF"@,
        "}"@,
        "apply_patch() {"@,
        "  if backup_all; then write_all; echo \"applied; backup in $BAK\"; else echo 'backup incomplete, apply aborted'; fi"@,
        "}"@,
        "while true; do"@,
        "  echo '1) configure target  2) apply patch  3) exit'"@,
        "  read -r c"@,
        "  case \"$c\" in 1) configure_target ;; 2) apply_patch ;; 3) exit 0 ;; esac"@,
        "done"@
    ]
}

/// The whole script: the fixed body, then one comment line per merged
/// change, in change-set order.
pub open spec fn script_lines_spec(m: crate::output::PatchManifestV) -> Seq<Seq<char>> {
    script_preamble() + m.changes.map_values(|e: ChangeEntryV| script_entry_line(e))
}

/// Emits the apply script for one manifest, deterministically.
pub fn generate_apply_script(m: &PatchManifest) -> (r: Vec<String>)
    ensures
        r.deep_view() == script_lines_spec(m@),
{
    let mut r: Vec<String> = Vec::new();
    r.push(String::from_str("#!/bin/sh"));
    r.push(String::from_str(
        "# Patch apply tool: configure target roots, apply with backup, exit.",
    ));
    r.push(String::from_str("BASE=$(cd \"$(dirname \"$0\")\" && pwd)"));
    r.push(String::from_str("CONF=\"$BASE/targets.conf\""));
    r.push(String::from_str("BUNDLE=\"$BASE/bundle\""));
    r.push(String::from_str("STAMP=$(date +%Y%m%d_%H%M%S)"));
    r.push(String::from_str("changes() { sed -n 's/^#C //p' \"$0\"; }"));
    r.push(String::from_str("configure_target() {"));
    r.push(String::from_str("  printf 'new target root: '; read -r t"));
    r.push(String::from_str(
        "  if [ -d \"$t\" ]; then printf '%s\\n' \"$t\" >> \"$CONF\"; else echo 'no such directory'; fi",
    ));
    r.push(String::from_str("}"));
    r.push(String::from_str("backup_one() {"));
    r.push(String::from_str("  if [ -f \"$1/$2\" ]; then"));
    r.push(String::from_str(
        "    mkdir -p \"$BAK/$(dirname \"$2\")\" && cp \"$1/$2\" \"$BAK/$2\" || return 1",
    ));
    r.push(String::from_str("  fi"));
    r.push(String::from_str("}"));
    r.push(String::from_str("backup_all() {"));
    r.push(String::from_str("  BAK=\"$BASE/bak_$STAMP\""));
    r.push(String::from_str("  while IFS='\t' read -r kind a b; do"));
    r.push(String::from_str("    while read -r root; do"));
    r.push(String::from_str("      backup_one \"$root\" \"$a\" || return 1"));
    r.push(String::from_str(
        "      [ -n \"$b\" ] && { backup_one \"$root\" \"$b\" || return 1; }",
    ));
    r.push(String::from_str("    done < \"$CONF\""));
    r.push(String::from_str("  done <<EOF"));
    r.push(String::from_str("$(changes)"));
    r.push(String::from_str("EOF"));
    r.push(String::from_str("}"));
    r.push(String::from_str("write_all() {"));
    r.push(String::from_str("  while IFS='\t' read -r kind a b; do"));
    r.push(String::from_str("    while read -r root; do"));
    r.push(String::from_str("      case \"$kind\" in"));
    r.push(String::from_str(
        "        A|M) mkdir -p \"$root/$(dirname \"$a\")\" && cp \"$BUNDLE/$a\" \"$root/$a\" || echo \"write failed: $a\" ;;",
    ));
    r.push(String::from_str("        D) rm -f \"$root/$a\" ;;"));
    r.push(String::from_str(
        "        R) rm -f \"$root/$a\" && mkdir -p \"$root/$(dirname \"$b\")\" && cp \"$BUNDLE/$b\" \"$root/$b\" || echo \"write failed: $b\" ;;",
    ));
    r.push(String::from_str("      esac"));
    r.push(String::from_str("    done < \"$CONF\""));
    r.push(String::from_str("  done <<EOF"));
    r.push(String::from_str("$(changes)"));
    r.push(String::from_str("EOF"));
    r.push(String::from_str("}"));
    r.push(String::from_str("apply_patch() {"));
    r.push(String::from_str(
        "  if backup_all; then write_all; echo \"applied; backup in $BAK\"; else echo 'backup incomplete, apply aborted'; fi",
    ));
    r.push(String::from_str("}"));
    r.push(String::from_str("while true; do"));
    r.push(String::from_str("  echo '1) configure target  2) apply patch  3) exit'"));
    r.push(String::from_str("  read -r c"));
    r.push(String::from_str(
        "  case \"$c\" in 1) configure_target ;; 2) apply_patch ;; 3) exit 0 ;; esac",
    ));
    r.push(String::from_str("done"));
    proof {
        assert(r.deep_view() =~= script_preamble());
    }
    let ghost head = r.deep_view();
    let ghost chs = m.changes@;
    proof {
        assert(head + chs.map_values(|e: ChangeEntryV| script_entry_line(e)).take(0) =~= head);
    }
    let n = m.changes.len();
    let mut k: usize = 0;
    while k < n
        invariant
            k <= n,
            n == chs.len(),
            m.changes@ == chs,
            r.deep_view() == head + chs.map_values(|e: ChangeEntryV| script_entry_line(e)).take(
                k as int,
            ),
        decreases n - k,
    {
        let e = m.changes.get(k);
        let line = match &e.kind {
            ChangeKind::Added => String::from_str("#C A\t").concat(e.path.as_str()),
            ChangeKind::Modified => String::from_str("#C M\t").concat(e.path.as_str()),
            ChangeKind::Deleted => String::from_str("#C D\t").concat(e.path.as_str()),
            ChangeKind::Renamed { from } => String::from_str("#C R\t").concat(from.as_str()).concat(
                "\t",
            ).concat(e.path.as_str()),
        };
        let ghost before = r.deep_view();
        r.push(line);
        proof {
            assert(line@ =~= script_entry_line(chs[k as int]));
            assert(r.deep_view() =~= before.push(line@));
            assert(chs.map_values(|e: ChangeEntryV| script_entry_line(e)).take(k + 1)
                =~= chs.map_values(|e: ChangeEntryV| script_entry_line(e)).take(k as int).push(
                script_entry_line(chs[k as int]),
            ));
            assert(r.deep_view() =~= head + chs.map_values(
                |e: ChangeEntryV| script_entry_line(e),
            ).take(k + 1));
        }
        k = k + 1;
    }
    proof {
        assert(chs.map_values(|e: ChangeEntryV| script_entry_line(e)).take(n as int) =~= chs
            .map_values(|e: ChangeEntryV| script_entry_line(e)));
        assert(r.deep_view() =~= script_lines_spec(m@));
    }
    r
}

} // verus!
