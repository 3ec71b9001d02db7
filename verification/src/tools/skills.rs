//! The skill tools: which `skill_manage` action a call asks for and what it
//! lacks, and the listing of installed skills.

use vstd::prelude::*;

use crate::text::{append_str, from_chars, join, join_chars, lemma_views_push, to_chars, views};

verus! {

/// Arguments of `skill_manage` as decoded from the call's JSON.
pub struct SkillManageArgs {
    pub action: String,
    pub name: String,
    pub content: Option<String>,
    pub old_string: Option<String>,
    pub new_string: Option<String>,
    pub file_path: Option<String>,
    pub file_content: Option<String>,
    pub category: Option<String>,
}

/// A `skill_manage` action with everything it needs.
pub enum SkillAction {
    Create { name: String, content: String, category: Option<String> },
    Edit { name: String, content: String },
    Patch { name: String, old_string: String, new_string: String, file_path: Option<String> },
    Delete { name: String },
    WriteFile { name: String, file_path: String, file_content: String },
    RemoveFile { name: String, file_path: String },
}

/// An installed skill as listed.
pub struct SkillListing {
    pub name: String,
    pub enabled: bool,
    pub description: String,
}

/// The error of a `skill_manage` call, if it has one: undecodable arguments,
/// an unknown action, or an argument the action needs.
pub open spec fn skill_manage_error(args: Result<SkillManageArgs, String>) -> Option<Seq<char>> {
    match args {
        Err(e) => Some("invalid skill_manage arguments: "@ + e@),
        Ok(a) => {
            let act = a.action@;
            if act == "create"@ {
                if a.content is None { Some("create requires content"@) } else { None }
            } else if act == "edit"@ {
                if a.content is None { Some("edit requires content"@) } else { None }
            } else if act == "patch"@ {
                if a.old_string is None {
                    Some("patch requires old_string"@)
                } else if a.new_string is None {
                    Some("patch requires new_string"@)
                } else {
                    None
                }
            } else if act == "delete"@ {
                None
            } else if act == "write_file"@ {
                if a.file_path is None {
                    Some("write_file requires file_path"@)
                } else if a.file_content is None {
                    Some("write_file requires file_content"@)
                } else {
                    None
                }
            } else if act == "remove_file"@ {
                if a.file_path is None { Some("remove_file requires file_path"@) } else { None }
            } else {
                Some("unknown skill_manage action: "@ + act)
            }
        },
    }
}

/// Whether the action carries the call's arguments.
pub open spec fn action_matches(r: SkillAction, a: SkillManageArgs) -> bool {
    let act = a.action@;
    match r {
        SkillAction::Create { name, content, category } => act == "create"@ && name == a.name && Some(content)
            == a.content && category == a.category,
        SkillAction::Edit { name, content } => act == "edit"@ && name == a.name && Some(content) == a.content,
        SkillAction::Patch { name, old_string, new_string, file_path } => act == "patch"@ && name == a.name
            && Some(old_string) == a.old_string && Some(new_string) == a.new_string && file_path
            == a.file_path,
        SkillAction::Delete { name } => act == "delete"@ && name == a.name,
        SkillAction::WriteFile { name, file_path, file_content } => act == "write_file"@ && name == a.name
            && Some(file_path) == a.file_path && Some(file_content) == a.file_content,
        SkillAction::RemoveFile { name, file_path } => act == "remove_file"@ && name == a.name && Some(
            file_path,
        ) == a.file_path,
    }
}

fn with_detail(prefix: &str, detail: &str) -> (r: String)
    ensures
        r@ == prefix@ + detail@,
{
    let mut out = to_chars(prefix);
    append_str(&mut out, detail);
    from_chars(&out)
}

/// Reads a `skill_manage` call: the action with its arguments, or the error.
pub fn plan_skill_manage(args: Result<SkillManageArgs, String>) -> (r: Result<SkillAction, String>)
    ensures
        match skill_manage_error(args) {
            Some(m) => r matches Err(e) && e@ == m,
            None => r matches Ok(act) && action_matches(act, args->Ok_0),
        },
{
    let a = match args {
        Err(e) => return Err(with_detail("invalid skill_manage arguments: ", e.as_str())),
        Ok(a) => a,
    };
    let act = to_chars(a.action.as_str());
    if crate::text::eq_str(&act, "create") {
        match a.content {
            Some(content) => Ok(SkillAction::Create { name: a.name, content, category: a.category }),
            None => Err("create requires content".to_owned()),
        }
    } else if crate::text::eq_str(&act, "edit") {
        match a.content {
            Some(content) => Ok(SkillAction::Edit { name: a.name, content }),
            None => Err("edit requires content".to_owned()),
        }
    } else if crate::text::eq_str(&act, "patch") {
        match a.old_string {
            None => Err("patch requires old_string".to_owned()),
            Some(old_string) => match a.new_string {
                None => Err("patch requires new_string".to_owned()),
                Some(new_string) => Ok(
                    SkillAction::Patch { name: a.name, old_string, new_string, file_path: a.file_path },
                ),
            },
        }
    } else if crate::text::eq_str(&act, "delete") {
        Ok(SkillAction::Delete { name: a.name })
    } else if crate::text::eq_str(&act, "write_file") {
        match a.file_path {
            None => Err("write_file requires file_path".to_owned()),
            Some(file_path) => match a.file_content {
                None => Err("write_file requires file_content".to_owned()),
                Some(file_content) => Ok(SkillAction::WriteFile { name: a.name, file_path, file_content }),
            },
        }
    } else if crate::text::eq_str(&act, "remove_file") {
        match a.file_path {
            None => Err("remove_file requires file_path".to_owned()),
            Some(file_path) => Ok(SkillAction::RemoveFile { name: a.name, file_path }),
        }
    } else {
        Err(with_detail("unknown skill_manage action: ", a.action.as_str()))
    }
}

/// The error of an undecodable `skill_view` call.
pub fn skill_view_args_error(detail: &str) -> (r: String)
    ensures
        r@ == "invalid skill_view arguments: "@ + detail@,
{
    with_detail("invalid skill_view arguments: ", detail)
}

/// The error of a skill tool name that no handler knows.
pub fn unknown_skill_tool_message(name: &str) -> (r: String)
    ensures
        r@ == "unknown skill tool: "@ + name@,
{
    with_detail("unknown skill tool: ", name)
}

/// The list line of a skill.
pub open spec fn listing_line(s: SkillListing) -> Seq<char> {
    "- "@ + s.name@ + " ("@ + (if s.enabled { "enabled"@ } else { "disabled"@ }) + ") — "@ + s.description@
}

/// The reply of `skills_list`.
pub open spec fn skills_list_text(items: Seq<SkillListing>) -> Seq<char> {
    if items.len() == 0 {
        "No skills installed."@
    } else {
        join(Seq::new(items.len(), |i: int| listing_line(items[i])), "\n"@)
    }
}

/// One line per installed skill with its status and description.
pub fn format_skill_list(items: &[SkillListing]) -> (r: String)
    ensures
        r@ == skills_list_text(items@),
{
    if items.len() == 0 {
        return "No skills installed.".to_owned();
    }
    let mut lines: Vec<Vec<char>> = Vec::new();
    let mut i: usize = 0;
    while i < items.len()
        invariant
            i <= items.len(),
            views(lines@) == Seq::new(i as nat, |k: int| listing_line(items@[k])),
        decreases items.len() - i,
    {
        let it = &items[i];
        let mut line = to_chars("- ");
        append_str(&mut line, it.name.as_str());
        append_str(&mut line, " (");
        if it.enabled {
            append_str(&mut line, "enabled");
        } else {
            append_str(&mut line, "disabled");
        }
        append_str(&mut line, ") — ");
        append_str(&mut line, it.description.as_str());
        proof {
            lemma_views_push(lines@, line);
        }
        lines.push(line);
        assert(views(lines@) =~= Seq::new((i + 1) as nat, |k: int| listing_line(items@[k])));
        i += 1;
    }
    let sep = to_chars("\n");
    from_chars(&join_chars(&lines, &sep))
}

} // verus!
