use appdata_cleaner::fs_tree::FsEntry;
use appdata_cleaner::fs_tree::FsNode;
use appdata_cleaner::fs_tree::calculate_folder_size;
use appdata_cleaner::fs_tree::count_files;
use appdata_cleaner::fs_tree::try_totals;

fn file(name: &str, size: u64) -> FsEntry {
    FsEntry { name: name.to_string(), node: FsNode::File { size } }
}

fn dir(name: &str, entries: Vec<FsEntry>) -> FsEntry {
    FsEntry { name: name.to_string(), node: FsNode::Dir { entries } }
}

#[test]
fn empty_directory_has_zero_size() {
    let root = FsNode::Dir { entries: vec![] };
    assert_eq!(calculate_folder_size(&root), 0);
    assert_eq!(count_files(&root), 0);
}

#[test]
fn file_only_directory_sums_file_sizes() {
    let root = FsNode::Dir { entries: vec![file("a.txt", 100), file("b.txt", 250), file("c.txt", 0)] };
    assert_eq!(calculate_folder_size(&root), 350);
}

#[test]
fn nested_directory_sums_children() {
    let inner = dir("inner", vec![file("x", 40), file("y", 2)]);
    let root = FsNode::Dir { entries: vec![inner, file("top", 8), dir("empty", vec![])] };
    assert_eq!(calculate_folder_size(&root), 50);
}

#[test]
fn count_is_independent_of_nesting_shape() {
    let flat = FsNode::Dir {
        entries: vec![file("a", 1), file("b", 2), file("c", 3), file("d", 4)],
    };
    let deep = FsNode::Dir {
        entries: vec![dir(
            "l1",
            vec![file("a", 1), dir("l2", vec![file("b", 2), dir("l3", vec![file("c", 3), file("d", 4)])])],
        )],
    };
    assert_eq!(count_files(&flat), 4);
    assert_eq!(count_files(&deep), 4);
}

#[test]
fn unreadable_subtree_contributes_nothing() {
    let root = FsNode::Dir {
        entries: vec![
            file("seen", 64),
            FsEntry { name: "denied".to_string(), node: FsNode::Unreadable },
            dir("sub", vec![file("inner", 36)]),
        ],
    };
    assert_eq!(calculate_folder_size(&root), 100);
    assert_eq!(count_files(&root), 2);
}

#[test]
fn single_file_node_reports_its_size() {
    let node = FsNode::File { size: 1234 };
    assert_eq!(calculate_folder_size(&node), 1234);
    assert_eq!(count_files(&node), 1);
}

#[test]
fn totals_come_back_together() {
    let root = FsNode::Dir {
        entries: vec![
            file("a.txt", 100),
            dir("sub", vec![file("b.txt", 250)]),
            FsEntry { name: "gone".to_string(), node: FsNode::Unreadable },
        ],
    };
    assert_eq!(try_totals(&root), Some((350, 2)));
}

#[test]
fn overflowing_totals_are_refused() {
    let root = FsNode::Dir { entries: vec![file("big", u64::MAX), file("more", 1)] };
    assert_eq!(try_totals(&root), None);
}
