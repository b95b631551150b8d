//! The programs by which the execution gateway reads, lists and searches files.
use vstd::prelude::*;

verus! {

/// The program that prints lines of a file.
pub const READ_FILE_SCRIPT: &'static str = r#"
import sys

path = sys.argv[1]
offset = int(sys.argv[2])
limit = int(sys.argv[3])
seen = 0
returned = 0
last_returned = None

with open(path, "rb") as handle:
    for raw in handle:
        seen += 1
        if seen < offset:
            continue
        if returned >= limit:
            continue
        line = raw.rstrip(b"\r\n").decode("utf-8", "replace")
        if len(line) > 500:
            line = line[:500]
        print(f"L{seen}: {line}")
        returned += 1
        last_returned = seen

if seen < offset:
    print("offset exceeds file length", file=sys.stderr)
    sys.exit(2)
if last_returned is not None and last_returned < seen:
    print(f"Note: file continues past line {last_returned}; file has {seen} total lines. Call read_file with offset={last_returned + 1} limit={limit} to read more.")
"#;

/// The program that prints the entries of a directory.
pub const LIST_DIR_SCRIPT: &'static str = r#"
import os
import sys

root = sys.argv[1]
offset = int(sys.argv[2])
limit = int(sys.argv[3])
max_depth = int(sys.argv[4])
entries = []

for current, dirs, files in os.walk(root):
    rel = os.path.relpath(current, root)
    depth = 0 if rel == "." else rel.count(os.sep) + 1
    if depth >= max_depth:
        dirs[:] = []
    names = [(name, True) for name in dirs] + [(name, False) for name in files]
    for name, is_dir in names:
        child = os.path.join(current, name)
        child_rel = os.path.relpath(child, root)
        child_depth = 0 if os.path.dirname(child_rel) == "" else os.path.dirname(child_rel).count(os.sep) + 1
        display = ("  " * child_depth) + name + ("/" if is_dir else "")
        entries.append((child_rel.replace(os.sep, "/"), display))

entries.sort(key=lambda item: item[0])
if offset < 1 or limit < 1 or max_depth < 1:
    print("offset, limit, and depth must be greater than zero", file=sys.stderr)
    sys.exit(2)
if offset - 1 >= len(entries):
    print("offset exceeds directory entry count", file=sys.stderr)
    sys.exit(2)
print(f"Absolute path: {root}")
selected = entries[offset - 1:offset - 1 + limit]
for _, display in selected:
    print(display[:500])
if offset - 1 + limit < len(entries):
    print(f"More than {len(selected)} entries found")
"#;

/// The program that prints the files in which a pattern is found.
pub const GREP_FILES_SCRIPT: &'static str = r#"
import fnmatch
import os
import re
import sys

pattern = sys.argv[1]
include = sys.argv[2] or None
root = sys.argv[3]
limit = int(sys.argv[4])
regex = re.compile(pattern)
found = []

for current, _, files in os.walk(root):
    for name in files:
        if include and not fnmatch.fnmatch(name, include):
            continue
        path = os.path.join(current, name)
        try:
            with open(path, "r", encoding="utf-8", errors="ignore") as handle:
                text = handle.read()
        except OSError:
            continue
        if regex.search(text):
            found.append(path)
            if len(found) >= limit:
                break
    if len(found) >= limit:
        break

for path in found:
    print(path)
"#;

} // verus!
