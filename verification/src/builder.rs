//! Menu builder: flattens the entity tree, in input order and depth first,
//! into a linear sequence of menu nodes. Headers and the quit entry carry
//! tokens outside the codec's action prefix; every group leaf carries a
//! codec-produced token. A group whose ids cannot be encoded fails the whole
//! build — a node is never silently dropped.

use vstd::prelude::*;
use vstd::string::{StrSliceExecFns, StringExecFns};

use crate::codec::{
    decode_spec, encode, encode_spec, lemma_header_token_rejected, safe_id, DecodeError,
    EncodeError,
};
use crate::model::{TrayCategory, TrayEnvFile, TrayGroup, TrayProjectData};

verus! {

/// One entry of the flattened menu.
#[derive(Debug)]
pub enum MenuNode {
    /// Non-actionable title for a project, env file or category.
    Header { label: String, token: String },
    /// Actionable leaf; activating it yields `token`.
    Action { label: String, token: String },
    /// Visual divider after each project's subtree.
    Separator,
}

/// The mathematical shape of one menu entry.
pub enum MenuNodeView {
    Header { label: Seq<char>, token: Seq<char> },
    Action { label: Seq<char>, token: Seq<char> },
    Separator,
}

impl View for MenuNode {
    type V = MenuNodeView;

    open spec fn view(&self) -> MenuNodeView {
        match self {
            MenuNode::Header { label, token } => MenuNodeView::Header {
                label: label@,
                token: token@,
            },
            MenuNode::Action { label, token } => MenuNodeView::Action {
                label: label@,
                token: token@,
            },
            MenuNode::Separator => MenuNodeView::Separator,
        }
    }
}

impl DeepView for MenuNode {
    type V = MenuNodeView;

    open spec fn deep_view(&self) -> MenuNodeView {
        self.view()
    }
}

/// The reserved token of the trailing quit entry. It lacks the action
/// prefix, so it can never collide with a codec-produced token.
pub open spec fn quit_sentinel() -> Seq<char> {
    "quit-app"@
}

pub open spec fn project_label(name: Seq<char>) -> Seq<char> {
    "📁 "@ + name
}

pub open spec fn env_label(name: Seq<char>) -> Seq<char> {
    "🧾 "@ + name
}

pub open spec fn category_label(name: Seq<char>) -> Seq<char> {
    "📂 "@ + name
}

pub open spec fn group_label(name: Seq<char>) -> Seq<char> {
    "⚙️ "@ + name
}

pub open spec fn project_header_token(id: Seq<char>) -> Seq<char> {
    "label-project-"@ + id
}

pub open spec fn env_header_token(pid: Seq<char>, ename: Seq<char>) -> Seq<char> {
    "label-env-"@ + pid + "-"@ + ename
}

pub open spec fn category_header_token(pid: Seq<char>, ename: Seq<char>, cname: Seq<char>) -> Seq<
    char,
> {
    "label-cat-"@ + pid + "-"@ + ename + "-"@ + cname
}

/// A group encodes iff both its id fields stay in the safe character set.
pub open spec fn group_safe(g: TrayGroup) -> bool {
    safe_id(g.project_id@) && safe_id(g.id@)
}

pub open spec fn groups_safe(gs: Seq<TrayGroup>) -> bool {
    forall|l: int| 0 <= l < gs.len() ==> group_safe(#[trigger] gs[l])
}

pub open spec fn category_safe(c: TrayCategory) -> bool {
    groups_safe(c.groups@)
}

pub open spec fn categories_safe(cs: Seq<TrayCategory>) -> bool {
    forall|k: int| 0 <= k < cs.len() ==> category_safe(#[trigger] cs[k])
}

pub open spec fn env_safe(e: TrayEnvFile) -> bool {
    categories_safe(e.categories@)
}

pub open spec fn envs_safe(es: Seq<TrayEnvFile>) -> bool {
    forall|j: int| 0 <= j < es.len() ==> env_safe(#[trigger] es[j])
}

pub open spec fn project_safe(p: TrayProjectData) -> bool {
    envs_safe(p.env_files@)
}

pub open spec fn projects_safe(ps: Seq<TrayProjectData>) -> bool {
    forall|i: int| 0 <= i < ps.len() ==> project_safe(#[trigger] ps[i])
}

/// The action node of one group.
pub open spec fn group_node(g: TrayGroup) -> MenuNodeView {
    MenuNodeView::Action {
        label: group_label(g.name@),
        token: encode_spec(g.project_id@, g.env_file_path@, g.id@),
    }
}

pub open spec fn nodes_of_groups(gs: Seq<TrayGroup>) -> Seq<MenuNodeView>
    decreases gs.len(),
{
    if gs.len() == 0 {
        Seq::empty()
    } else {
        nodes_of_groups(gs.drop_last()).push(group_node(gs.last()))
    }
}

pub open spec fn nodes_of_category(pid: Seq<char>, ename: Seq<char>, c: TrayCategory) -> Seq<
    MenuNodeView,
> {
    seq![
        MenuNodeView::Header {
            label: category_label(c.name@),
            token: category_header_token(pid, ename, c.name@),
        },
    ] + nodes_of_groups(c.groups@)
}

pub open spec fn nodes_of_categories(pid: Seq<char>, ename: Seq<char>, cs: Seq<TrayCategory>) -> Seq<
    MenuNodeView,
>
    decreases cs.len(),
{
    if cs.len() == 0 {
        Seq::empty()
    } else {
        nodes_of_categories(pid, ename, cs.drop_last()) + nodes_of_category(pid, ename, cs.last())
    }
}

pub open spec fn nodes_of_env(pid: Seq<char>, e: TrayEnvFile) -> Seq<MenuNodeView> {
    seq![
        MenuNodeView::Header { label: env_label(e.name@), token: env_header_token(pid, e.name@) },
    ] + nodes_of_categories(pid, e.name@, e.categories@)
}

pub open spec fn nodes_of_envs(pid: Seq<char>, es: Seq<TrayEnvFile>) -> Seq<MenuNodeView>
    decreases es.len(),
{
    if es.len() == 0 {
        Seq::empty()
    } else {
        nodes_of_envs(pid, es.drop_last()) + nodes_of_env(pid, es.last())
    }
}

pub open spec fn nodes_of_project(p: TrayProjectData) -> Seq<MenuNodeView> {
    seq![
        MenuNodeView::Header { label: project_label(p.name@), token: project_header_token(p.id@) },
    ] + nodes_of_envs(p.id@, p.env_files@) + seq![MenuNodeView::Separator]
}

pub open spec fn nodes_of_projects(ps: Seq<TrayProjectData>) -> Seq<MenuNodeView>
    decreases ps.len(),
{
    if ps.len() == 0 {
        Seq::empty()
    } else {
        nodes_of_projects(ps.drop_last()) + nodes_of_project(ps.last())
    }
}

/// The trailing quit entry.
pub open spec fn quit_node() -> MenuNodeView {
    MenuNodeView::Action { label: "Quit"@, token: quit_sentinel() }
}

/// The whole menu for a project list: the flattened tree, then quit.
pub open spec fn menu_spec(ps: Seq<TrayProjectData>) -> Seq<MenuNodeView> {
    nodes_of_projects(ps).push(quit_node())
}

/// Concatenation of `prefix` and `name`.
fn label_with(prefix: &str, name: &str) -> (r: String)
    ensures
        r@ == prefix@ + name@,
{
    let mut s = String::from_str(prefix);
    s.append(name);
    s
}

/// `pre` then `a`, a dash, `b`.
fn joined2(pre: &str, a: &str, b: &str) -> (r: String)
    ensures
        r@ == pre@ + a@ + "-"@ + b@,
{
    let mut s = String::from_str(pre);
    s.append(a);
    s.append("-");
    s.append(b);
    s
}

/// `pre` then `a`, a dash, `b`, a dash, `c`.
fn joined3(pre: &str, a: &str, b: &str, c: &str) -> (r: String)
    ensures
        r@ == pre@ + a@ + "-"@ + b@ + "-"@ + c@,
{
    let mut s = String::from_str(pre);
    s.append(a);
    s.append("-");
    s.append(b);
    s.append("-");
    s.append(c);
    s
}

fn push_group(nodes: &mut Vec<MenuNode>, g: &TrayGroup) -> (r: Result<(), EncodeError>)
    ensures
        r is Ok <==> group_safe(*g),
        r is Ok ==> final(nodes).deep_view() == old(nodes).deep_view().push(group_node(*g)),
        r matches Err(e) ==> e == EncodeError::UnsafeIdentifier,
{
    let token = match encode(g.project_id.as_str(), g.env_file_path.as_str(), g.id.as_str()) {
        Ok(t) => t,
        Err(e) => {
            return Err(e);
        },
    };
    let label = label_with("⚙️ ", g.name.as_str());
    nodes.push(MenuNode::Action { label, token });
    proof {
        assert(nodes.deep_view() =~= old(nodes).deep_view().push(group_node(*g)));
    }
    Ok(())
}

fn push_groups(nodes: &mut Vec<MenuNode>, gs: &Vec<TrayGroup>) -> (r: Result<(), EncodeError>)
    ensures
        r is Ok <==> groups_safe(gs@),
        r is Ok ==> final(nodes).deep_view() == old(nodes).deep_view() + nodes_of_groups(gs@),
        r matches Err(e) ==> e == EncodeError::UnsafeIdentifier,
{
    let ghost base = nodes.deep_view();
    let n: usize = gs.len();
    let mut l: usize = 0;
    while l < n
        invariant
            l <= n,
            n == gs@.len(),
            forall|k: int| 0 <= k < l ==> group_safe(#[trigger] gs@[k]),
            nodes.deep_view() == base + nodes_of_groups(gs@.take(l as int)),
        decreases n - l,
    {
        match push_group(nodes, &gs[l]) {
            Ok(()) => {},
            Err(e) => {
                return Err(e);
            },
        }
        proof {
            let li = l as int;
            assert(gs@.take(li + 1).drop_last() =~= gs@.take(li));
            assert(gs@.take(li + 1).last() == gs@[li]);
            assert(nodes.deep_view() =~= base + nodes_of_groups(gs@.take(li + 1)));
        }
        l = l + 1;
    }
    proof {
        assert(gs@.take(n as int) =~= gs@);
    }
    Ok(())
}

fn push_category(nodes: &mut Vec<MenuNode>, pid: &str, ename: &str, c: &TrayCategory) -> (r: Result<
    (),
    EncodeError,
>)
    ensures
        r is Ok <==> category_safe(*c),
        r is Ok ==> final(nodes).deep_view() == old(nodes).deep_view() + nodes_of_category(
            pid@,
            ename@,
            *c,
        ),
        r matches Err(e) ==> e == EncodeError::UnsafeIdentifier,
{
    let ghost base = nodes.deep_view();
    let label = label_with("📂 ", c.name.as_str());
    let token = joined3("label-cat-", pid, ename, c.name.as_str());
    nodes.push(MenuNode::Header { label, token });
    match push_groups(nodes, &c.groups) {
        Ok(()) => {},
        Err(e) => {
            return Err(e);
        },
    }
    proof {
        assert(nodes.deep_view() =~= base + nodes_of_category(pid@, ename@, *c));
    }
    Ok(())
}

fn push_categories(
    nodes: &mut Vec<MenuNode>,
    pid: &str,
    ename: &str,
    cs: &Vec<TrayCategory>,
) -> (r: Result<(), EncodeError>)
    ensures
        r is Ok <==> categories_safe(cs@),
        r is Ok ==> final(nodes).deep_view() == old(nodes).deep_view() + nodes_of_categories(
            pid@,
            ename@,
            cs@,
        ),
        r matches Err(e) ==> e == EncodeError::UnsafeIdentifier,
{
    let ghost base = nodes.deep_view();
    let n: usize = cs.len();
    let mut k: usize = 0;
    while k < n
        invariant
            k <= n,
            n == cs@.len(),
            forall|k2: int| 0 <= k2 < k ==> category_safe(#[trigger] cs@[k2]),
            nodes.deep_view() == base + nodes_of_categories(pid@, ename@, cs@.take(k as int)),
        decreases n - k,
    {
        match push_category(nodes, pid, ename, &cs[k]) {
            Ok(()) => {},
            Err(e) => {
                return Err(e);
            },
        }
        proof {
            let ki = k as int;
            assert(cs@.take(ki + 1).drop_last() =~= cs@.take(ki));
            assert(cs@.take(ki + 1).last() == cs@[ki]);
            assert(nodes.deep_view() =~= base + nodes_of_categories(pid@, ename@, cs@.take(ki + 1)));
        }
        k = k + 1;
    }
    proof {
        assert(cs@.take(n as int) =~= cs@);
    }
    Ok(())
}

fn push_env(nodes: &mut Vec<MenuNode>, pid: &str, e: &TrayEnvFile) -> (r: Result<(), EncodeError>)
    ensures
        r is Ok <==> env_safe(*e),
        r is Ok ==> final(nodes).deep_view() == old(nodes).deep_view() + nodes_of_env(pid@, *e),
        r matches Err(err) ==> err == EncodeError::UnsafeIdentifier,
{
    let ghost base = nodes.deep_view();
    let label = label_with("🧾 ", e.name.as_str());
    let token = joined2("label-env-", pid, e.name.as_str());
    nodes.push(MenuNode::Header { label, token });
    match push_categories(nodes, pid, e.name.as_str(), &e.categories) {
        Ok(()) => {},
        Err(err) => {
            return Err(err);
        },
    }
    proof {
        assert(nodes.deep_view() =~= base + nodes_of_env(pid@, *e));
    }
    Ok(())
}

fn push_envs(nodes: &mut Vec<MenuNode>, pid: &str, es: &Vec<TrayEnvFile>) -> (r: Result<
    (),
    EncodeError,
>)
    ensures
        r is Ok <==> envs_safe(es@),
        r is Ok ==> final(nodes).deep_view() == old(nodes).deep_view() + nodes_of_envs(pid@, es@),
        r matches Err(e) ==> e == EncodeError::UnsafeIdentifier,
{
    let ghost base = nodes.deep_view();
    let n: usize = es.len();
    let mut j: usize = 0;
    while j < n
        invariant
            j <= n,
            n == es@.len(),
            forall|k: int| 0 <= k < j ==> env_safe(#[trigger] es@[k]),
            nodes.deep_view() == base + nodes_of_envs(pid@, es@.take(j as int)),
        decreases n - j,
    {
        match push_env(nodes, pid, &es[j]) {
            Ok(()) => {},
            Err(e) => {
                return Err(e);
            },
        }
        proof {
            let ji = j as int;
            assert(es@.take(ji + 1).drop_last() =~= es@.take(ji));
            assert(es@.take(ji + 1).last() == es@[ji]);
            assert(nodes.deep_view() =~= base + nodes_of_envs(pid@, es@.take(ji + 1)));
        }
        j = j + 1;
    }
    proof {
        assert(es@.take(n as int) =~= es@);
    }
    Ok(())
}

fn push_project(nodes: &mut Vec<MenuNode>, p: &TrayProjectData) -> (r: Result<(), EncodeError>)
    ensures
        r is Ok <==> project_safe(*p),
        r is Ok ==> final(nodes).deep_view() == old(nodes).deep_view() + nodes_of_project(*p),
        r matches Err(e) ==> e == EncodeError::UnsafeIdentifier,
{
    let ghost base = nodes.deep_view();
    let label = label_with("📁 ", p.name.as_str());
    let token = label_with("label-project-", p.id.as_str());
    let ghost hv = MenuNodeView::Header { label: label@, token: token@ };
    nodes.push(MenuNode::Header { label, token });
    proof {
        assert(nodes.deep_view() =~= base.push(hv));
    }
    match push_envs(nodes, p.id.as_str(), &p.env_files) {
        Ok(()) => {},
        Err(e) => {
            return Err(e);
        },
    }
    let ghost mid = nodes.deep_view();
    nodes.push(MenuNode::Separator);
    proof {
        assert(nodes.deep_view() =~= mid.push(MenuNodeView::Separator));
        assert(nodes.deep_view() =~= base + nodes_of_project(*p));
    }
    Ok(())
}

fn push_projects(nodes: &mut Vec<MenuNode>, ps: &Vec<TrayProjectData>) -> (r: Result<
    (),
    EncodeError,
>)
    ensures
        r is Ok <==> projects_safe(ps@),
        r is Ok ==> final(nodes).deep_view() == old(nodes).deep_view() + nodes_of_projects(ps@),
        r matches Err(e) ==> e == EncodeError::UnsafeIdentifier,
{
    let ghost base = nodes.deep_view();
    let n: usize = ps.len();
    let mut i: usize = 0;
    while i < n
        invariant
            i <= n,
            n == ps@.len(),
            forall|k: int| 0 <= k < i ==> project_safe(#[trigger] ps@[k]),
            nodes.deep_view() == base + nodes_of_projects(ps@.take(i as int)),
        decreases n - i,
    {
        match push_project(nodes, &ps[i]) {
            Ok(()) => {},
            Err(e) => {
                return Err(e);
            },
        }
        proof {
            let ii = i as int;
            assert(ps@.take(ii + 1).drop_last() =~= ps@.take(ii));
            assert(ps@.take(ii + 1).last() == ps@[ii]);
            assert(nodes.deep_view() =~= base + nodes_of_projects(ps@.take(ii + 1)));
        }
        i = i + 1;
    }
    proof {
        assert(ps@.take(n as int) =~= ps@);
    }
    Ok(())
}

/// Builds the whole menu for a project list. Succeeds with the flattened
/// tree followed by the quit entry exactly when every group's ids are safe;
/// otherwise fails with the encoder's error and surfaces it to the caller.
pub fn build_menu(projects: &Vec<TrayProjectData>) -> (r: Result<Vec<MenuNode>, EncodeError>)
    ensures
        r is Ok <==> projects_safe(projects@),
        r matches Ok(nodes) ==> nodes.deep_view() == menu_spec(projects@),
        r matches Err(e) ==> e == EncodeError::UnsafeIdentifier,
{
    let mut nodes: Vec<MenuNode> = Vec::new();
    match push_projects(&mut nodes, projects) {
        Ok(()) => {},
        Err(e) => {
            return Err(e);
        },
    }
    let label = String::from_str("Quit");
    let token = String::from_str("quit-app");
    nodes.push(MenuNode::Action { label, token });
    proof {
        assert(nodes.deep_view() =~= menu_spec(projects@));
    }
    Ok(nodes)
}

/// A node whose token, if it is a header's, decodes to `NotATargetToken`.
pub open spec fn header_rejected(n: MenuNodeView) -> bool {
    n matches MenuNodeView::Header { token, .. } ==> decode_spec(token) == Err::<
        (Seq<char>, Seq<char>, Seq<char>),
        DecodeError,
    >(DecodeError::NotATargetToken)
}

/// Every header node of the sequence is rejected by the decoder.
pub open spec fn headers_rejected(ns: Seq<MenuNodeView>) -> bool {
    forall|i: int| 0 <= i < ns.len() ==> header_rejected(#[trigger] ns[i])
}

proof fn lemma_project_header_rejected(id: Seq<char>)
    ensures
        decode_spec(project_header_token(id)) == Err::<(Seq<char>, Seq<char>, Seq<char>),
            DecodeError,
        >(DecodeError::NotATargetToken),
{
    reveal_strlit("label-");
    reveal_strlit("label-project-");
    let t = project_header_token(id);
    assert(t.subrange(0, 6) =~= "label-"@);
    lemma_header_token_rejected(t);
}

proof fn lemma_env_header_rejected(pid: Seq<char>, ename: Seq<char>)
    ensures
        decode_spec(env_header_token(pid, ename)) == Err::<(Seq<char>, Seq<char>, Seq<char>),
            DecodeError,
        >(DecodeError::NotATargetToken),
{
    reveal_strlit("label-");
    reveal_strlit("label-env-");
    let t = env_header_token(pid, ename);
    assert(t.subrange(0, 6) =~= "label-"@);
    lemma_header_token_rejected(t);
}

proof fn lemma_category_header_rejected(pid: Seq<char>, ename: Seq<char>, cname: Seq<char>)
    ensures
        decode_spec(category_header_token(pid, ename, cname)) == Err::<
            (Seq<char>, Seq<char>, Seq<char>),
            DecodeError,
        >(DecodeError::NotATargetToken),
{
    reveal_strlit("label-");
    reveal_strlit("label-cat-");
    let t = category_header_token(pid, ename, cname);
    assert(t.subrange(0, 6) =~= "label-"@);
    lemma_header_token_rejected(t);
}

proof fn lemma_headers_rejected_concat(a: Seq<MenuNodeView>, b: Seq<MenuNodeView>)
    requires
        headers_rejected(a),
        headers_rejected(b),
    ensures
        headers_rejected(a + b),
{
    assert forall|i: int| 0 <= i < (a + b).len() implies header_rejected(#[trigger] (a + b)[i]) by {
        if i < a.len() {
            assert((a + b)[i] == a[i]);
        } else {
            assert((a + b)[i] == b[i - a.len()]);
        }
    }
}

proof fn lemma_groups_headers_rejected(gs: Seq<TrayGroup>)
    ensures
        headers_rejected(nodes_of_groups(gs)),
    decreases gs.len(),
{
    if gs.len() > 0 {
        lemma_groups_headers_rejected(gs.drop_last());
        let ns = nodes_of_groups(gs);
        let rest = nodes_of_groups(gs.drop_last());
        assert forall|i: int| 0 <= i < ns.len() implies header_rejected(#[trigger] ns[i]) by {
            if i < rest.len() {
                assert(ns[i] == rest[i]);
            } else {
                assert(ns[i] == group_node(gs.last()));
            }
        }
    }
}

proof fn lemma_category_nodes_headers_rejected(pid: Seq<char>, ename: Seq<char>, c: TrayCategory)
    ensures
        headers_rejected(nodes_of_category(pid, ename, c)),
{
    lemma_category_header_rejected(pid, ename, c.name@);
    lemma_groups_headers_rejected(c.groups@);
    let h = seq![
        MenuNodeView::Header {
            label: category_label(c.name@),
            token: category_header_token(pid, ename, c.name@),
        },
    ];
    assert(headers_rejected(h));
    lemma_headers_rejected_concat(h, nodes_of_groups(c.groups@));
}

proof fn lemma_categories_headers_rejected(pid: Seq<char>, ename: Seq<char>, cs: Seq<TrayCategory>)
    ensures
        headers_rejected(nodes_of_categories(pid, ename, cs)),
    decreases cs.len(),
{
    if cs.len() > 0 {
        lemma_categories_headers_rejected(pid, ename, cs.drop_last());
        lemma_category_nodes_headers_rejected(pid, ename, cs.last());
        lemma_headers_rejected_concat(
            nodes_of_categories(pid, ename, cs.drop_last()),
            nodes_of_category(pid, ename, cs.last()),
        );
    }
}

proof fn lemma_env_nodes_headers_rejected(pid: Seq<char>, e: TrayEnvFile)
    ensures
        headers_rejected(nodes_of_env(pid, e)),
{
    lemma_env_header_rejected(pid, e.name@);
    lemma_categories_headers_rejected(pid, e.name@, e.categories@);
    let h = seq![
        MenuNodeView::Header { label: env_label(e.name@), token: env_header_token(pid, e.name@) },
    ];
    assert(headers_rejected(h));
    lemma_headers_rejected_concat(h, nodes_of_categories(pid, e.name@, e.categories@));
}

proof fn lemma_envs_headers_rejected(pid: Seq<char>, es: Seq<TrayEnvFile>)
    ensures
        headers_rejected(nodes_of_envs(pid, es)),
    decreases es.len(),
{
    if es.len() > 0 {
        lemma_envs_headers_rejected(pid, es.drop_last());
        lemma_env_nodes_headers_rejected(pid, es.last());
        lemma_headers_rejected_concat(
            nodes_of_envs(pid, es.drop_last()),
            nodes_of_env(pid, es.last()),
        );
    }
}

proof fn lemma_project_nodes_headers_rejected(p: TrayProjectData)
    ensures
        headers_rejected(nodes_of_project(p)),
{
    lemma_project_header_rejected(p.id@);
    lemma_envs_headers_rejected(p.id@, p.env_files@);
    let h = seq![
        MenuNodeView::Header { label: project_label(p.name@), token: project_header_token(p.id@) },
    ];
    assert(headers_rejected(h));
    lemma_headers_rejected_concat(h, nodes_of_envs(p.id@, p.env_files@));
    lemma_headers_rejected_concat(
        h + nodes_of_envs(p.id@, p.env_files@),
        seq![MenuNodeView::Separator],
    );
}

proof fn lemma_projects_headers_rejected(ps: Seq<TrayProjectData>)
    ensures
        headers_rejected(nodes_of_projects(ps)),
    decreases ps.len(),
{
    if ps.len() > 0 {
        lemma_projects_headers_rejected(ps.drop_last());
        lemma_project_nodes_headers_rejected(ps.last());
        lemma_headers_rejected_concat(
            nodes_of_projects(ps.drop_last()),
            nodes_of_project(ps.last()),
        );
    }
}

/// Prefix discrimination over a whole build: the token of every header node
/// the builder emits decodes to `NotATargetToken`, so the resolver rejects
/// header clicks without attempting a decode of their fields.
pub proof fn lemma_menu_headers_rejected(ps: Seq<TrayProjectData>)
    ensures
        headers_rejected(menu_spec(ps)),
{
    lemma_projects_headers_rejected(ps);
    let ns = menu_spec(ps);
    let body = nodes_of_projects(ps);
    assert forall|i: int| 0 <= i < ns.len() implies header_rejected(#[trigger] ns[i]) by {
        if i < body.len() {
            assert(ns[i] == body[i]);
        } else {
            assert(ns[i] == quit_node());
        }
    }
}

/// The tokens of the action nodes of `ns`, in order.
pub open spec fn action_tokens(ns: Seq<MenuNodeView>) -> Seq<Seq<char>>
    decreases ns.len(),
{
    if ns.len() == 0 {
        Seq::empty()
    } else {
        let rest = action_tokens(ns.drop_last());
        match ns.last() {
            MenuNodeView::Action { token, .. } => rest.push(token),
            _ => rest,
        }
    }
}

/// The token a group encodes to.
pub open spec fn group_token(g: TrayGroup) -> Seq<char> {
    encode_spec(g.project_id@, g.env_file_path@, g.id@)
}

/// Depth-first traversal of the tree, reduced to group tokens. It reads
/// only identity fields — never a display name.
pub open spec fn tokens_of_groups(gs: Seq<TrayGroup>) -> Seq<Seq<char>>
    decreases gs.len(),
{
    if gs.len() == 0 {
        Seq::empty()
    } else {
        tokens_of_groups(gs.drop_last()).push(group_token(gs.last()))
    }
}

pub open spec fn tokens_of_categories(cs: Seq<TrayCategory>) -> Seq<Seq<char>>
    decreases cs.len(),
{
    if cs.len() == 0 {
        Seq::empty()
    } else {
        tokens_of_categories(cs.drop_last()) + tokens_of_groups(cs.last().groups@)
    }
}

pub open spec fn tokens_of_envs(es: Seq<TrayEnvFile>) -> Seq<Seq<char>>
    decreases es.len(),
{
    if es.len() == 0 {
        Seq::empty()
    } else {
        tokens_of_envs(es.drop_last()) + tokens_of_categories(es.last().categories@)
    }
}

pub open spec fn tokens_of_projects(ps: Seq<TrayProjectData>) -> Seq<Seq<char>>
    decreases ps.len(),
{
    if ps.len() == 0 {
        Seq::empty()
    } else {
        tokens_of_projects(ps.drop_last()) + tokens_of_envs(ps.last().env_files@)
    }
}

proof fn lemma_action_tokens_concat(a: Seq<MenuNodeView>, b: Seq<MenuNodeView>)
    ensures
        action_tokens(a + b) == action_tokens(a) + action_tokens(b),
    decreases b.len(),
{
    if b.len() == 0 {
        assert(a + b =~= a);
        assert(action_tokens(a) + action_tokens(b) =~= action_tokens(a));
    } else {
        assert((a + b).drop_last() =~= a + b.drop_last());
        lemma_action_tokens_concat(a, b.drop_last());
        assert((a + b).last() == b.last());
        match b.last() {
            MenuNodeView::Action { token, .. } => {
                assert((action_tokens(a) + action_tokens(b.drop_last())).push(token) =~= action_tokens(
                    a,
                ) + action_tokens(b.drop_last()).push(token));
            },
            _ => {},
        }
    }
}

proof fn lemma_action_tokens_groups(gs: Seq<TrayGroup>)
    ensures
        action_tokens(nodes_of_groups(gs)) == tokens_of_groups(gs),
    decreases gs.len(),
{
    if gs.len() > 0 {
        lemma_action_tokens_groups(gs.drop_last());
        let ns = nodes_of_groups(gs);
        assert(ns.drop_last() =~= nodes_of_groups(gs.drop_last()));
        assert(ns.last() == group_node(gs.last()));
    }
}

proof fn lemma_action_tokens_category(pid: Seq<char>, ename: Seq<char>, c: TrayCategory)
    ensures
        action_tokens(nodes_of_category(pid, ename, c)) == tokens_of_groups(c.groups@),
{
    let h = seq![
        MenuNodeView::Header {
            label: category_label(c.name@),
            token: category_header_token(pid, ename, c.name@),
        },
    ];
    assert(action_tokens(Seq::<MenuNodeView>::empty()) =~= Seq::<Seq<char>>::empty());
    assert(h.drop_last() =~= Seq::<MenuNodeView>::empty());
    assert(action_tokens(h) =~= Seq::<Seq<char>>::empty());
    lemma_action_tokens_concat(h, nodes_of_groups(c.groups@));
    lemma_action_tokens_groups(c.groups@);
    assert(action_tokens(h) + tokens_of_groups(c.groups@) =~= tokens_of_groups(c.groups@));
}

proof fn lemma_action_tokens_categories(pid: Seq<char>, ename: Seq<char>, cs: Seq<TrayCategory>)
    ensures
        action_tokens(nodes_of_categories(pid, ename, cs)) == tokens_of_categories(cs),
    decreases cs.len(),
{
    if cs.len() > 0 {
        lemma_action_tokens_categories(pid, ename, cs.drop_last());
        lemma_action_tokens_category(pid, ename, cs.last());
        lemma_action_tokens_concat(
            nodes_of_categories(pid, ename, cs.drop_last()),
            nodes_of_category(pid, ename, cs.last()),
        );
    }
}

proof fn lemma_action_tokens_env(pid: Seq<char>, e: TrayEnvFile)
    ensures
        action_tokens(nodes_of_env(pid, e)) == tokens_of_categories(e.categories@),
{
    let h = seq![
        MenuNodeView::Header { label: env_label(e.name@), token: env_header_token(pid, e.name@) },
    ];
    assert(action_tokens(Seq::<MenuNodeView>::empty()) =~= Seq::<Seq<char>>::empty());
    assert(h.drop_last() =~= Seq::<MenuNodeView>::empty());
    assert(action_tokens(h) =~= Seq::<Seq<char>>::empty());
    lemma_action_tokens_concat(h, nodes_of_categories(pid, e.name@, e.categories@));
    lemma_action_tokens_categories(pid, e.name@, e.categories@);
    assert(action_tokens(h) + tokens_of_categories(e.categories@) =~= tokens_of_categories(
        e.categories@,
    ));
}

proof fn lemma_action_tokens_envs(pid: Seq<char>, es: Seq<TrayEnvFile>)
    ensures
        action_tokens(nodes_of_envs(pid, es)) == tokens_of_envs(es),
    decreases es.len(),
{
    if es.len() > 0 {
        lemma_action_tokens_envs(pid, es.drop_last());
        lemma_action_tokens_env(pid, es.last());
        lemma_action_tokens_concat(
            nodes_of_envs(pid, es.drop_last()),
            nodes_of_env(pid, es.last()),
        );
    }
}

proof fn lemma_action_tokens_project(p: TrayProjectData)
    ensures
        action_tokens(nodes_of_project(p)) == tokens_of_envs(p.env_files@),
{
    let h = seq![
        MenuNodeView::Header { label: project_label(p.name@), token: project_header_token(p.id@) },
    ];
    let s = seq![MenuNodeView::Separator];
    assert(action_tokens(Seq::<MenuNodeView>::empty()) =~= Seq::<Seq<char>>::empty());
    assert(h.drop_last() =~= Seq::<MenuNodeView>::empty());
    assert(action_tokens(h) =~= Seq::<Seq<char>>::empty());
    assert(s.drop_last() =~= Seq::<MenuNodeView>::empty());
    assert(action_tokens(s) =~= Seq::<Seq<char>>::empty());
    lemma_action_tokens_concat(h, nodes_of_envs(p.id@, p.env_files@));
    lemma_action_tokens_concat(h + nodes_of_envs(p.id@, p.env_files@), s);
    lemma_action_tokens_envs(p.id@, p.env_files@);
    assert(action_tokens(h) + tokens_of_envs(p.env_files@) + action_tokens(s) =~= tokens_of_envs(
        p.env_files@,
    ));
}

proof fn lemma_action_tokens_projects(ps: Seq<TrayProjectData>)
    ensures
        action_tokens(nodes_of_projects(ps)) == tokens_of_projects(ps),
    decreases ps.len(),
{
    if ps.len() > 0 {
        lemma_action_tokens_projects(ps.drop_last());
        lemma_action_tokens_project(ps.last());
        lemma_action_tokens_concat(
            nodes_of_projects(ps.drop_last()),
            nodes_of_project(ps.last()),
        );
    }
}

/// Order preservation: the action tokens of a built menu are exactly the
/// depth-first traversal of the input tree — projects, then env files, then
/// categories, then groups, each in input order — followed by the quit
/// sentinel. The traversal reads only identity fields, so display-name
/// content cannot affect it.
pub proof fn lemma_order_preservation(ps: Seq<TrayProjectData>)
    ensures
        action_tokens(menu_spec(ps)) == tokens_of_projects(ps).push(quit_sentinel()),
{
    lemma_action_tokens_projects(ps);
    let ns = menu_spec(ps);
    assert(ns.drop_last() =~= nodes_of_projects(ps));
    assert(ns.last() == quit_node());
}

} // verus!
