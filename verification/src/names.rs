//! The well-known definition paths, property names, and fixed texts that the
//! passes recognize and synthesize, as specification-level constants.

use vstd::prelude::*;

verus! {

pub open spec fn delete_options_path() -> Seq<char> {
    "io.k8s.apimachinery.pkg.apis.meta.v1.DeleteOptions"@
}

pub open spec fn delete_optional_path() -> Seq<char> {
    "io.k8s.DeleteOptional"@
}

pub open spec fn patch_path() -> Seq<char> {
    "io.k8s.apimachinery.pkg.apis.meta.v1.Patch"@
}

pub open spec fn patch_optional_path() -> Seq<char> {
    "io.k8s.PatchOptional"@
}

pub open spec fn list_optional_path() -> Seq<char> {
    "io.k8s.ListOptional"@
}

pub open spec fn watch_optional_path() -> Seq<char> {
    "io.k8s.WatchOptional"@
}

pub open spec fn watch_event_path() -> Seq<char> {
    "io.k8s.apimachinery.pkg.apis.meta.v1.WatchEvent"@
}

pub open spec fn status_path() -> Seq<char> {
    "io.k8s.apimachinery.pkg.apis.meta.v1.Status"@
}

pub open spec fn list_def_path() -> Seq<char> {
    "io.k8s.List"@
}

pub open spec fn delete_response_path() -> Seq<char> {
    "io.k8s.DeleteResponse"@
}

pub open spec fn list_response_path() -> Seq<char> {
    "io.k8s.ListResponse"@
}

pub open spec fn patch_response_path() -> Seq<char> {
    "io.k8s.PatchResponse"@
}

pub open spec fn watch_response_path() -> Seq<char> {
    "io.k8s.WatchResponse"@
}

pub open spec fn delete_optional_description() -> Seq<char> {
    "Common parameters for all delete and delete-collection operations."@
}

pub open spec fn patch_optional_description() -> Seq<char> {
    "Common parameters for all patch operations."@
}

pub open spec fn list_optional_description() -> Seq<char> {
    "Common parameters for all list operations."@
}

pub open spec fn watch_optional_description() -> Seq<char> {
    "Common parameters for all watch operations."@
}

pub open spec fn optional_parameter_description() -> Seq<char> {
    "Optional parameters. Use `Default::default()` to not pass any."@
}

pub open spec fn delete_parameter_description() -> Seq<char> {
    "Delete options. Use `Default::default()` to not pass any."@
}

pub open spec fn list_parameter_description() -> Seq<char> {
    "List options. Use `Default::default()` to not pass any."@
}

pub open spec fn list_def_description() -> Seq<char> {
    "List is a list of resources."@
}

pub open spec fn delete_response_description() -> Seq<char> {
    "The common response type for all delete API operations and delete-collection API operations."@
}

pub open spec fn list_response_description() -> Seq<char> {
    "The common response type for all list API operations."@
}

pub open spec fn patch_response_description() -> Seq<char> {
    "The common response type for all patch API operations."@
}

pub open spec fn watch_response_description() -> Seq<char> {
    "The common response type for all watch API operations."@
}

pub open spec fn ok_description() -> Seq<char> {
    "OK"@
}

pub open spec fn list_only_note() -> Seq<char> {
    "This operation only supports listing all items of this type.\n"@
}

pub open spec fn watch_only_note() -> Seq<char> {
    "This operation only supports watching one item, or a list of items, of this type for changes.\n"@
}

pub open spec fn paragraph_break() -> Seq<char> {
    "\n\n"@
}

pub open spec fn newline() -> Seq<char> {
    "\n"@
}

pub open spec fn optional_name() -> Seq<char> {
    "optional"@
}

pub open spec fn delete_optional_name() -> Seq<char> {
    "deleteOptional"@
}

pub open spec fn list_optional_name() -> Seq<char> {
    "listOptional"@
}

pub open spec fn object_name() -> Seq<char> {
    "object"@
}

pub open spec fn items_name() -> Seq<char> {
    "items"@
}

pub open spec fn metadata_name() -> Seq<char> {
    "metadata"@
}

pub open spec fn watch_name() -> Seq<char> {
    "watch"@
}

pub open spec fn allow_watch_bookmarks_name() -> Seq<char> {
    "allowWatchBookmarks"@
}

pub open spec fn continue_name() -> Seq<char> {
    "continue"@
}

pub open spec fn limit_name() -> Seq<char> {
    "limit"@
}

pub open spec fn list_prefix() -> Seq<char> {
    "list"@
}

pub open spec fn watch_prefix() -> Seq<char> {
    "watch"@
}

pub open spec fn list_suffix() -> Seq<char> {
    "List"@
}

pub open spec fn for_all_namespaces_suffix() -> Seq<char> {
    "ForAllNamespaces"@
}

pub open spec fn list_for_all_namespaces_suffix() -> Seq<char> {
    "ListForAllNamespaces"@
}

pub open spec fn list_meta_suffix() -> Seq<char> {
    ".ListMeta"@
}

pub open spec fn dot_text() -> Seq<char> {
    "."@
}

} // verus!
