//! Maintenance documents: identifiers, directory names, the header that each
//! document file carries, and how an edit rewrites a document.
use vstd::prelude::*;
use crate::text::{chars_of, contains, contains_spec, contains_str, eq_str, insert_sorted_unique, is_alphanumeric, join, join_spec, lemma_take_contains, lemma_trim_idempotent, lex_le, lex_le_exec, lines, lines_spec, opt_str_view, push_str, seq_eq, slice_to_vec, split_char, split_char_spec, starts_with_spec, starts_with_str, strictly_sorted, string_of, string_views, strip_prefixes, strip_suffixes, trim, trim_end_matches_str, trim_spec, trim_start_matches_str, unicode_alphanumeric, utf8_len, utf8_len_exceeds, views};

verus! {

pub struct DocMeta {
    pub id: String,
    pub title: String,
    pub category: String,
    pub tags: Vec<String>,
    pub created_at: String,
    pub updated_at: String,
    pub size_bytes: u64,
}

pub struct Doc {
    pub meta: DocMeta,
    pub content: String,
}

/// The quick-start document that every installation keeps.
pub open spec fn default_doc_id() -> Seq<char> {
    "first-use-quick-start"@
}

pub open spec fn default_doc_category() -> Seq<char> {
    "系统文档"@
}

/// The quick-start document's identifier, title, directory and body.
pub const QUICK_START_ID: &'static str = "first-use-quick-start";

pub const QUICK_START_TITLE: &'static str = "第一次使用，教你如何快速使用";

pub const QUICK_START_CATEGORY: &'static str = "系统文档";

pub const QUICK_START_BODY: &'static str = "DM 是面向现场运维和应急排障的离线优先控制台。它把系统体检、维护脚本、服务管理、流量分析、Java 运行时诊断和维护文档集中在一个本地应用里，适合服务器、内网、容器宿主机和无法稳定访问外网的环境。

## 快速上手路径

1. 打开首页仪表盘，先确认主机、CPU、内存、磁盘、负载、网络流量和 TOP 进程是否正常。
2. 进入系统设置，检查 Web 端口、脚本目录、数据目录、常规检查连接配置和 Redis/数据库等基础连接。
3. 进入常规检查，点击一键体检，观察实时日志和告警结果。重复告警会自动合并，详情里保留证据和处理建议。
4. 进入维护脚本，上传或选择脚本执行。脚本支持 shell、Python、Perl 等可执行文件，执行前确认参数，执行后查看实时输出和历史记录。
5. 进入堆栈分析，选择 Java 进程后先做快速分析；需要持续观察时开启实时跟踪，再导出 PDF 报告或原始数据。

## 常用入口

- CLI 帮助：`dm --help`
- 维护脚本：先上传脚本，再执行和复盘
- Java 排障：先快速分析，再实时跟踪，最后导出证据
";

/// What becomes of the quick-start document: it is created where it is missing,
/// rewritten where its text needs repair, else kept.
pub enum QuickStartAction {
    Create,
    Repair,
    Keep,
}

/// What becomes of the quick-start document whose current text is `existing`
/// (`None` where there is no such document).
pub open spec fn quick_start_action_spec(existing: Option<Seq<char>>) -> QuickStartAction {
    match existing {
        None => QuickStartAction::Create,
        Some(c) => if contains_spec(c, "编辑时左侧写 Markdown 源码"@) || !contains_spec(c, "## 快速上手路径"@) {
            QuickStartAction::Repair
        } else {
            QuickStartAction::Keep
        },
    }
}

pub fn quick_start_action(existing: Option<&str>) -> (r: QuickStartAction)
    ensures
        r == quick_start_action_spec(opt_str_view(existing)),
{
    match existing {
        None => QuickStartAction::Create,
        Some(c) => {
            if default_doc_needs_repair(c) {
                QuickStartAction::Repair
            } else {
                QuickStartAction::Keep
            }
        },
    }
}

pub open spec fn lacks_char(s: Seq<char>, c: char) -> bool {
    forall|i: int| 0 <= i < s.len() ==> s[i] != c
}

proof fn lemma_lacking_first_char_not_contained(s: Seq<char>, p: Seq<char>)
    requires
        p.len() > 0,
        lacks_char(s, p[0]),
    ensures
        !contains_spec(s, p),
{
    if contains_spec(s, p) {
        let i = choose|i: int| crate::text::occurs_at(s, p, i);
        assert(s.subrange(i, i + p.len())[0] == p[0]);
    }
}

proof fn lemma_contains_in_tail(a: Seq<char>, b: Seq<char>, p: Seq<char>, k: int)
    requires
        crate::text::occurs_at(b, p, k),
    ensures
        contains_spec(a + b, p),
{
    assert((a + b).subrange(a.len() + k, a.len() + k + p.len()) =~= b.subrange(k, k + p.len()));
    assert(crate::text::occurs_at(a + b, p, a.len() + k));
}

/// The quick-start text has no `编` and holds the quick-start section, which starts
/// at its character 101. (Verus learns the characters of a literal only from the
/// literal itself, so it is written here once more.)
proof fn lemma_quick_start_body()
    ensures
        lacks_char(QUICK_START_BODY@, '编'),
        crate::text::occurs_at(QUICK_START_BODY@, "## 快速上手路径"@, 101),
{
    reveal_strlit("DM 是面向现场运维和应急排障的离线优先控制台。它把系统体检、维护脚本、服务管理、流量分析、Java 运行时诊断和维护文档集中在一个本地应用里，适合服务器、内网、容器宿主机和无法稳定访问外网的环境。

## 快速上手路径

1. 打开首页仪表盘，先确认主机、CPU、内存、磁盘、负载、网络流量和 TOP 进程是否正常。
2. 进入系统设置，检查 Web 端口、脚本目录、数据目录、常规检查连接配置和 Redis/数据库等基础连接。
3. 进入常规检查，点击一键体检，观察实时日志和告警结果。重复告警会自动合并，详情里保留证据和处理建议。
4. 进入维护脚本，上传或选择脚本执行。脚本支持 shell、Python、Perl 等可执行文件，执行前确认参数，执行后查看实时输出和历史记录。
5. 进入堆栈分析，选择 Java 进程后先做快速分析；需要持续观察时开启实时跟踪，再导出 PDF 报告或原始数据。

## 常用入口

- CLI 帮助：`dm --help`
- 维护脚本：先上传脚本，再执行和复盘
- Java 排障：先快速分析，再实时跟踪，最后导出证据
");
    reveal_strlit("## 快速上手路径");
    assert(QUICK_START_BODY@ == "DM 是面向现场运维和应急排障的离线优先控制台。它把系统体检、维护脚本、服务管理、流量分析、Java 运行时诊断和维护文档集中在一个本地应用里，适合服务器、内网、容器宿主机和无法稳定访问外网的环境。

## 快速上手路径

1. 打开首页仪表盘，先确认主机、CPU、内存、磁盘、负载、网络流量和 TOP 进程是否正常。
2. 进入系统设置，检查 Web 端口、脚本目录、数据目录、常规检查连接配置和 Redis/数据库等基础连接。
3. 进入常规检查，点击一键体检，观察实时日志和告警结果。重复告警会自动合并，详情里保留证据和处理建议。
4. 进入维护脚本，上传或选择脚本执行。脚本支持 shell、Python、Perl 等可执行文件，执行前确认参数，执行后查看实时输出和历史记录。
5. 进入堆栈分析，选择 Java 进程后先做快速分析；需要持续观察时开启实时跟踪，再导出 PDF 报告或原始数据。

## 常用入口

- CLI 帮助：`dm --help`
- 维护脚本：先上传脚本，再执行和复盘
- Java 排障：先快速分析，再实时跟踪，最后导出证据
"@);
    assert(QUICK_START_BODY@.subrange(101, 101 + "## 快速上手路径"@.len() as int) =~= "## 快速上手路径"@);
}

/// Setting up the default documents twice leaves the quick-start document as the
/// first run created it: the text created for it, at any time stamp (which holds no
/// `编`), is kept as it is by the next run.
pub proof fn law_created_quick_start_is_kept(now: Seq<char>)
    requires
        lacks_char(now, '编'),
    ensures
        quick_start_action_spec(Some(new_doc_spec(QUICK_START_TITLE@, QUICK_START_CATEGORY@, QUICK_START_BODY@, now)))
            == QuickStartAction::Keep,
{
    let text = new_doc_spec(QUICK_START_TITLE@, QUICK_START_CATEGORY@, QUICK_START_BODY@, now);
    lemma_quick_start_body();
    reveal_strlit("第一次使用，教你如何快速使用");
    reveal_strlit("系统文档");
    reveal_strlit("<!-- category:");
    reveal_strlit(" -->\n<!-- tags: -->\n<!-- created:");
    reveal_strlit(" -->\n<!-- updated:");
    reveal_strlit(" -->\n\n# ");
    reveal_strlit("\n\n");
    reveal_strlit("编辑时左侧写 Markdown 源码");
    assert(QUICK_START_TITLE@ == "第一次使用，教你如何快速使用"@);
    assert(QUICK_START_CATEGORY@ == "系统文档"@);
    let head = "<!-- category:"@ + QUICK_START_CATEGORY@ + " -->\n<!-- tags: -->\n<!-- created:"@ + now
        + " -->\n<!-- updated:"@ + now + " -->\n\n# "@ + QUICK_START_TITLE@ + "\n\n"@;
    assert(text == head + QUICK_START_BODY@);
    assert(lacks_char(head, '编'));
    assert(lacks_char(text, '编'));
    assert("编辑时左侧写 Markdown 源码"@[0] == '编');
    lemma_lacking_first_char_not_contained(text, "编辑时左侧写 Markdown 源码"@);
    lemma_contains_in_tail(head, QUICK_START_BODY@, "## 快速上手路径"@, 101);
}

// ---------------------------------------------------------------------------
// Identifiers
// ---------------------------------------------------------------------------

pub open spec fn id_char(c: char) -> bool {
    unicode_alphanumeric(c) || c == '-' || c == '_'
}

/// The characters of `id` that may stand in a file name: letters, digits, `-`, `_`.
pub open spec fn sanitize_id_spec(id: Seq<char>) -> Seq<char>
    decreases id.len(),
{
    if id.len() == 0 {
        id
    } else if id_char(id.last()) {
        sanitize_id_spec(id.drop_last()).push(id.last())
    } else {
        sanitize_id_spec(id.drop_last())
    }
}

pub fn sanitize_id(id: &str) -> (r: String)
    ensures
        r@ == sanitize_id_spec(id@),
{
    let cs = chars_of(id);
    let mut out: Vec<char> = Vec::new();
    let mut i: usize = 0;
    while i < cs.len()
        invariant
            i <= cs@.len(),
            cs@ == id@,
            out@ == sanitize_id_spec(cs@.take(i as int)),
        decreases cs.len() - i,
    {
        let c = cs[i];
        assert(cs@.take(i + 1).drop_last() =~= cs@.take(i as int));
        if is_alphanumeric(c) || c == '-' || c == '_' {
            out.push(c);
        }
        i = i + 1;
    }
    assert(cs@.take(i as int) =~= cs@);
    string_of(out.as_slice())
}

/// Whether `safe_id` names the quick-start document, which cannot be deleted.
pub fn is_default_doc(safe_id: &str) -> (r: bool)
    ensures
        r == (safe_id@ == default_doc_id()),
{
    let c = chars_of(safe_id);
    eq_str(c.as_slice(), "first-use-quick-start")
}

/// Whether the quick-start document has to be written again: it still holds the
/// old editing hint, or lacks the quick-start section.
pub fn default_doc_needs_repair(content: &str) -> (r: bool)
    ensures
        r == (crate::text::contains_spec(content@, "编辑时左侧写 Markdown 源码"@)
            || !crate::text::contains_spec(content@, "## 快速上手路径"@)),
{
    let c = chars_of(content);
    contains_str(c.as_slice(), "编辑时左侧写 Markdown 源码") || !contains_str(c.as_slice(), "## 快速上手路径")
}

// ---------------------------------------------------------------------------
// Document directories
// ---------------------------------------------------------------------------

pub open spec fn forbidden_in_dir_name(c: char) -> bool {
    c == '/' || c == '\\' || c == '\0' || c == '\r' || c == '\n'
}

/// Why `name` cannot name a document directory, if it cannot.
pub open spec fn doc_dir_error(name: Seq<char>) -> Option<Seq<char>> {
    let c = trim_spec(name);
    if c.len() == 0 {
        Some("目录名称不能为空"@)
    } else if utf8_len(c) > 80 {
        Some("目录名称过长"@)
    } else if exists|i: int| 0 <= i < c.len() && forbidden_in_dir_name(#[trigger] c[i]) {
        Some("目录名称不能包含路径分隔符或换行"@)
    } else {
        None
    }
}

/// The stored directory names as read back: trimmed, empty ones dropped, in order.
pub open spec fn trimmed_names(s: Seq<Seq<char>>) -> Seq<Seq<char>>
    decreases s.len(),
{
    if s.len() == 0 {
        s
    } else if trim_spec(s.last()).len() > 0 {
        trimmed_names(s.drop_last()).push(trim_spec(s.last()))
    } else {
        trimmed_names(s.drop_last())
    }
}

pub fn stored_doc_dirs(raw: Vec<String>) -> (r: Vec<String>)
    ensures
        string_views(r@) == trimmed_names(string_views(raw@)),
{
    let ghost rv = string_views(raw@);
    let mut out: Vec<String> = Vec::new();
    let mut i: usize = 0;
    while i < raw.len()
        invariant
            i <= raw@.len(),
            rv == string_views(raw@),
            string_views(out@) == trimmed_names(rv.take(i as int)),
        decreases raw.len() - i,
    {
        let c = chars_of(raw[i].as_str());
        let t = trim(c.as_slice());
        assert(rv.take(i + 1).drop_last() =~= rv.take(i as int));
        assert(rv.take(i + 1).last() == raw@[i as int]@);
        if t.len() > 0 {
            let ghost before = string_views(out@);
            out.push(string_of(t.as_slice()));
            assert(string_views(out@) =~= before.push(t@));
        }
        i = i + 1;
    }
    assert(rv.take(i as int) =~= rv);
    out
}

/// The directory names that are kept for `dirs`: each trimmed, non-empty one.
pub open spec fn kept_dir_name(dirs: Seq<Seq<char>>, y: Seq<char>) -> bool {
    y.len() > 0 && exists|i: int| 0 <= i < dirs.len() && y == trim_spec(#[trigger] dirs[i])
}

/// What the directory file stores for `dirs`: the trimmed, non-empty names, sorted
/// and without repeats.
pub fn normalized_doc_dirs(dirs: &Vec<String>) -> (r: Vec<String>)
    ensures
        strictly_sorted(string_views(r@)),
        forall|y: Seq<char>| string_views(r@).contains(y) <==> kept_dir_name(string_views(dirs@), y),
{
    let ghost dv = string_views(dirs@);
    let mut out: Vec<String> = Vec::new();
    let mut i: usize = 0;
    while i < dirs.len()
        invariant
            i <= dirs@.len(),
            dv == string_views(dirs@),
            strictly_sorted(string_views(out@)),
            forall|y: Seq<char>| string_views(out@).contains(y) <==> kept_dir_name(dv.take(i as int), y),
        decreases dirs.len() - i,
    {
        let c = chars_of(dirs[i].as_str());
        let t = trim(c.as_slice());
        let ghost prev = dv.take(i as int);
        let ghost next = dv.take(i + 1);
        assert(next[i as int] == dirs@[i as int]@);
        if t.len() > 0 {
            insert_sorted_unique(&mut out, string_of(t.as_slice()));
        }
        assert forall|y: Seq<char>| string_views(out@).contains(y) <==> kept_dir_name(next, y) by {
            if kept_dir_name(next, y) {
                let k = choose|k: int| 0 <= k < next.len() && y == trim_spec(#[trigger] next[k]);
                if k < i {
                    assert(prev[k] == next[k]);
                }
            }
            if kept_dir_name(prev, y) {
                let k = choose|k: int| 0 <= k < prev.len() && y == trim_spec(#[trigger] prev[k]);
                assert(prev[k] == next[k]);
            }
        }
        i = i + 1;
    }
    assert(dv.take(i as int) =~= dv);
    out
}

/// The directories that the documents page lists: the system and general
/// directories, every stored one, and every document category that is not blank.
pub open spec fn listed_doc_dir(stored: Seq<Seq<char>>, categories: Seq<Seq<char>>, y: Seq<char>) -> bool {
    ||| y == default_doc_category()
    ||| y == "通用"@
    ||| stored.contains(y)
    ||| (categories.contains(y) && trim_spec(y).len() > 0)
}

pub fn collect_doc_dirs(stored: &Vec<String>, categories: &Vec<String>) -> (r: Vec<String>)
    ensures
        strictly_sorted(string_views(r@)),
        forall|y: Seq<char>|
            string_views(r@).contains(y) <==> listed_doc_dir(string_views(stored@), string_views(categories@), y),
{
    let ghost sv = string_views(stored@);
    let ghost cv = string_views(categories@);
    let mut out: Vec<String> = Vec::new();
    insert_sorted_unique(&mut out, "系统文档".to_owned());
    insert_sorted_unique(&mut out, "通用".to_owned());
    let mut i: usize = 0;
    while i < stored.len()
        invariant
            i <= stored@.len(),
            sv == string_views(stored@),
            strictly_sorted(string_views(out@)),
            forall|y: Seq<char>|
                string_views(out@).contains(y) <==> (y == default_doc_category() || y == "通用"@
                    || sv.take(i as int).contains(y)),
        decreases stored.len() - i,
    {
        let x = stored[i].clone();
        assert(x@ == sv[i as int]);
        insert_sorted_unique(&mut out, x);
        proof {
            lemma_take_contains(sv, i as int);
        }
        i = i + 1;
    }
    assert(sv.take(i as int) =~= sv);
    let mut j: usize = 0;
    while j < categories.len()
        invariant
            j <= categories@.len(),
            sv == string_views(stored@),
            cv == string_views(categories@),
            strictly_sorted(string_views(out@)),
            forall|y: Seq<char>|
                #![trigger string_views(out@).contains(y)]
                string_views(out@).contains(y) <==> (y == default_doc_category() || y == "通用"@
                    || sv.contains(y) || (cv.take(j as int).contains(y) && trim_spec(y).len() > 0)),
        decreases categories.len() - j,
    {
        let c = chars_of(categories[j].as_str());
        let t = trim(c.as_slice());
        assert(cv[j as int] == c@);
        let ghost before = string_views(out@);
        if t.len() > 0 {
            let x = categories[j].clone();
            assert(x@ == cv[j as int]);
            insert_sorted_unique(&mut out, x);
        }
        proof {
            lemma_take_contains(cv, j as int);
            assert forall|y: Seq<char>|
                string_views(out@).contains(y) <==> (y == default_doc_category() || y == "通用"@
                    || sv.contains(y) || (cv.take(j + 1).contains(y) && trim_spec(y).len() > 0)) by {
                assert(before.contains(y) <==> (y == default_doc_category() || y == "通用"@
                    || sv.contains(y) || (cv.take(j as int).contains(y) && trim_spec(y).len() > 0)));
                assert(cv.take(j + 1).contains(y) <==> (cv.take(j as int).contains(y) || y == cv[j as int]));
                if y == cv[j as int] {
                    assert(trim_spec(y) == t@);
                }
            }
        }
        j = j + 1;
    }
    assert(cv.take(j as int) =~= cv);
    out
}

/// Adds directory `name` (trimmed) to the stored directories `stored`. Gives the
/// list to store when the name is new (`None` when it is there already) and the
/// directories to list afterwards, given the categories of the documents; or why
/// the name is refused.
pub fn create_doc_dir(name: &str, stored: Vec<String>, categories: &Vec<String>) -> (r: Result<
    (Option<Vec<String>>, Vec<String>),
    String,
>)
    ensures
        match doc_dir_error(name@) {
            Some(e) => r matches Err(m) && m@ == e,
            None => r matches Ok((w, dirs)) && {
                let clean = trim_spec(name@);
                let kept = if string_views(stored@).contains(clean) {
                    string_views(stored@)
                } else {
                    string_views(w->0@)
                };
                &&& (string_views(stored@).contains(clean) <==> w is None)
                &&& (w matches Some(v) ==> strictly_sorted(string_views(v@)) && forall|y: Seq<char>|
                    string_views(v@).contains(y) <==> kept_dir_name(string_views(stored@).push(clean), y))
                &&& strictly_sorted(string_views(dirs@))
                &&& forall|y: Seq<char>|
                    string_views(dirs@).contains(y) <==> listed_doc_dir(kept, string_views(categories@), y)
            },
        },
{
    let nc = chars_of(name);
    let clean = trim(nc.as_slice());
    if clean.len() == 0 {
        return Err("目录名称不能为空".to_owned());
    }
    if utf8_len_exceeds(clean.as_slice(), 80) {
        return Err("目录名称过长".to_owned());
    }
    let mut i: usize = 0;
    while i < clean.len()
        invariant
            i <= clean@.len(),
            clean@ == trim_spec(name@),
            clean@.len() > 0,
            utf8_len(clean@) <= 80,
            forall|k: int| 0 <= k < i ==> !forbidden_in_dir_name(#[trigger] clean@[k]),
        decreases clean.len() - i,
    {
        let c = clean[i];
        if c == '/' || c == '\\' || c == '\0' || c == '\r' || c == '\n' {
            assert(clean@ == trim_spec(name@));
            assert(forbidden_in_dir_name(clean@[i as int]));
            assert(doc_dir_error(name@) == Some("目录名称不能包含路径分隔符或换行"@));
            return Err("目录名称不能包含路径分隔符或换行".to_owned());
        }
        i = i + 1;
    }
    let ghost sv = string_views(stored@);
    let mut found = false;
    let mut k: usize = 0;
    while k < stored.len()
        invariant
            k <= stored@.len(),
            sv == string_views(stored@),
            found ==> sv.contains(clean@),
            !found ==> forall|j: int| 0 <= j < k ==> sv[j] != clean@,
        decreases stored.len() - k,
    {
        let sc = chars_of(stored[k].as_str());
        if crate::text::seq_eq(sc.as_slice(), clean.as_slice()) {
            assert(sv[k as int] == clean@);
            found = true;
        }
        k = k + 1;
    }
    if found {
        let dirs = collect_doc_dirs(&stored, categories);
        Ok((None, dirs))
    } else {
        let mut with_new = stored;
        with_new.push(string_of(clean.as_slice()));
        assert(string_views(with_new@) =~= sv.push(clean@));
        let normalized = normalized_doc_dirs(&with_new);
        let dirs = collect_doc_dirs(&normalized, categories);
        Ok((Some(normalized), dirs))
    }
}


// ---------------------------------------------------------------------------
// The document header
// ---------------------------------------------------------------------------

/// What the header lines of a document say.
pub struct DocHeader {
    pub title: String,
    pub category: String,
    pub tags: Vec<String>,
    pub created_at: String,
    pub updated_at: String,
}

pub struct HeaderView {
    pub title: Seq<char>,
    pub category: Seq<char>,
    pub tags: Seq<Seq<char>>,
    pub created_at: Seq<char>,
    pub updated_at: Seq<char>,
}

impl View for DocHeader {
    type V = HeaderView;

    open spec fn view(&self) -> HeaderView {
        HeaderView {
            title: self.title@,
            category: self.category@,
            tags: string_views(self.tags@),
            created_at: self.created_at@,
            updated_at: self.updated_at@,
        }
    }
}

/// The value of a marker line `<!-- name:value -->`: the text after the marker,
/// without the closing `-->`, trimmed.
pub open spec fn marker_value(line: Seq<char>, marker: Seq<char>) -> Seq<char> {
    trim_spec(strip_suffixes(strip_prefixes(line, marker), "-->"@))
}

/// The header of a document whose file is named `id`, before any line is read.
pub open spec fn empty_header(id: Seq<char>) -> HeaderView {
    HeaderView {
        title: id,
        category: "未分类"@,
        tags: Seq::empty(),
        created_at: Seq::empty(),
        updated_at: Seq::empty(),
    }
}

/// The header after reading one more line: the first `# ` line gives the title
/// (while the title is still the file name), and each marker line sets its field.
pub open spec fn header_step(h: HeaderView, line: Seq<char>, id: Seq<char>) -> HeaderView {
    HeaderView {
        title: if starts_with_spec(line, "# "@) && h.title == id {
            trim_spec(line.skip(2))
        } else {
            h.title
        },
        category: if starts_with_spec(line, "<!-- category:"@) {
            marker_value(line, "<!-- category:"@)
        } else {
            h.category
        },
        tags: if starts_with_spec(line, "<!-- tags:"@) {
            trimmed_names(split_char_spec(marker_value(line, "<!-- tags:"@), ','))
        } else {
            h.tags
        },
        created_at: if starts_with_spec(line, "<!-- created:"@) {
            marker_value(line, "<!-- created:"@)
        } else {
            h.created_at
        },
        updated_at: if starts_with_spec(line, "<!-- updated:"@) {
            marker_value(line, "<!-- updated:"@)
        } else {
            h.updated_at
        },
    }
}

pub open spec fn scan_header(ls: Seq<Seq<char>>, id: Seq<char>) -> HeaderView
    decreases ls.len(),
{
    if ls.len() == 0 {
        empty_header(id)
    } else {
        header_step(scan_header(ls.drop_last(), id), ls.last(), id)
    }
}

fn marker_text(line: &[char], marker: &str) -> (r: Vec<char>)
    ensures
        r@ == marker_value(line@, marker@),
{
    let a = trim_start_matches_str(line, marker);
    let b = trim_end_matches_str(a.as_slice(), "-->");
    trim(b.as_slice())
}

fn trimmed_pieces(parts: &Vec<Vec<char>>) -> (r: Vec<String>)
    ensures
        string_views(r@) == trimmed_names(views(parts@)),
{
    let ghost pv = views(parts@);
    let mut out: Vec<String> = Vec::new();
    let mut i: usize = 0;
    while i < parts.len()
        invariant
            i <= parts@.len(),
            pv == views(parts@),
            string_views(out@) == trimmed_names(pv.take(i as int)),
        decreases parts.len() - i,
    {
        let t = trim(parts[i].as_slice());
        assert(pv.take(i + 1).drop_last() =~= pv.take(i as int));
        assert(pv.take(i + 1).last() == parts@[i as int]@);
        if t.len() > 0 {
            let ghost before = string_views(out@);
            out.push(string_of(t.as_slice()));
            assert(string_views(out@) =~= before.push(t@));
        }
        i = i + 1;
    }
    assert(pv.take(i as int) =~= pv);
    out
}

/// Reads the header of a document file named `id` with text `content`.
pub fn parse_doc_header(content: &str, id: &str) -> (h: DocHeader)
    ensures
        h@ == scan_header(lines_spec(content@), id@),
{
    let cc = chars_of(content);
    let ls = lines(cc.as_slice());
    let ghost lv = views(ls@);
    let idc = chars_of(id);
    let mut title: Vec<char> = chars_of(id);
    let mut category: Vec<char> = chars_of("未分类");
    let mut tags: Vec<String> = Vec::new();
    let mut created: Vec<char> = Vec::new();
    let mut updated: Vec<char> = Vec::new();
    let mut i: usize = 0;
    assert(lv.take(0) =~= Seq::<Seq<char>>::empty());
    assert(string_views(tags@) =~= Seq::<Seq<char>>::empty());
    while i < ls.len()
        invariant
            i <= ls@.len(),
            lv == views(ls@),
            idc@ == id@,
            (HeaderView {
                title: title@,
                category: category@,
                tags: string_views(tags@),
                created_at: created@,
                updated_at: updated@,
            }) == scan_header(lv.take(i as int), id@),
        decreases ls.len() - i,
    {
        let line = ls[i].as_slice();
        assert(lv.take(i + 1).drop_last() =~= lv.take(i as int));
        assert(lv.take(i + 1).last() == line@);
        proof {
            reveal_strlit("# ");
        }
        if starts_with_str(line, "# ") && seq_eq(title.as_slice(), idc.as_slice()) {
            let rest = slice_to_vec(line, 2, line.len());
            title = trim(rest.as_slice());
            assert(rest@ =~= line@.skip(2));
        }
        if starts_with_str(line, "<!-- category:") {
            category = marker_text(line, "<!-- category:");
        }
        if starts_with_str(line, "<!-- tags:") {
            let t = marker_text(line, "<!-- tags:");
            let parts = split_char(t.as_slice(), ',');
            tags = trimmed_pieces(&parts);
        }
        if starts_with_str(line, "<!-- created:") {
            created = marker_text(line, "<!-- created:");
        }
        if starts_with_str(line, "<!-- updated:") {
            updated = marker_text(line, "<!-- updated:");
        }
        i = i + 1;
    }
    assert(lv.take(i as int) =~= lv);
    proof {
        reveal_strlit("未分类");
    }
    DocHeader {
        title: string_of(title.as_slice()),
        category: string_of(category.as_slice()),
        tags,
        created_at: string_of(created.as_slice()),
        updated_at: string_of(updated.as_slice()),
    }
}


// ---------------------------------------------------------------------------
// Document text
// ---------------------------------------------------------------------------

/// Reading a body line by line: whether the title (or the first text) has been
/// passed, and the lines kept so far.
pub open spec fn envelope_scan(ls: Seq<Seq<char>>) -> (bool, Seq<Seq<char>>)
    decreases ls.len(),
{
    if ls.len() == 0 {
        (false, Seq::empty())
    } else {
        let (seen, body) = envelope_scan(ls.drop_last());
        let line = ls.last();
        if starts_with_spec(line, "<!-- "@) {
            (seen, body)
        } else if !seen && starts_with_spec(line, "# "@) {
            (true, body)
        } else if seen || trim_spec(line).len() > 0 {
            (true, body.push(line))
        } else {
            (seen, body)
        }
    }
}

/// A document body without its marker lines, its title line and the blank lines
/// before the text, trimmed.
pub open spec fn strip_envelope_spec(content: Seq<char>) -> Seq<char> {
    trim_spec(join_spec(envelope_scan(lines_spec(content)).1, "\n"@))
}

pub fn strip_doc_envelope(content: &str) -> (r: String)
    ensures
        r@ == strip_envelope_spec(content@),
{
    let cc = chars_of(content);
    let ls = lines(cc.as_slice());
    let ghost lv = views(ls@);
    let mut seen = false;
    let mut body: Vec<Vec<char>> = Vec::new();
    let mut i: usize = 0;
    assert(lv.take(0) =~= Seq::<Seq<char>>::empty());
    assert(views(body@) =~= Seq::<Seq<char>>::empty());
    while i < ls.len()
        invariant
            i <= ls@.len(),
            lv == views(ls@),
            (seen, views(body@)) == envelope_scan(lv.take(i as int)),
        decreases ls.len() - i,
    {
        let line = ls[i].as_slice();
        assert(lv.take(i + 1).drop_last() =~= lv.take(i as int));
        assert(lv.take(i + 1).last() == line@);
        if starts_with_str(line, "<!-- ") {
        } else if !seen && starts_with_str(line, "# ") {
            seen = true;
        } else {
            let t = trim(line);
            if seen || t.len() > 0 {
                let ghost before = views(body@);
                body.push(slice_to_vec(line, 0, line.len()));
                assert(line@.subrange(0, line@.len() as int) =~= line@);
                assert(views(body@) =~= before.push(line@));
                seen = true;
            }
        }
        i = i + 1;
    }
    assert(lv.take(i as int) =~= lv);
    let nl = chars_of("\n");
    let joined = join(body.as_slice(), nl.as_slice());
    let t = trim(joined.as_slice());
    string_of(t.as_slice())
}

/// The first line of `ls` that starts with `p`.
pub open spec fn first_prefix_index(ls: Seq<Seq<char>>, p: Seq<char>) -> Option<int> {
    if exists|k: int|
        0 <= k < ls.len() && starts_with_spec(#[trigger] ls[k], p) && forall|j: int|
            0 <= j < k ==> !starts_with_spec(#[trigger] ls[j], p) {
        Some(
            choose|k: int|
                0 <= k < ls.len() && starts_with_spec(#[trigger] ls[k], p) && forall|j: int|
                    0 <= j < k ==> !starts_with_spec(#[trigger] ls[j], p),
        )
    } else {
        None
    }
}

/// `ls` with its first line that starts with `p` replaced by `new`.
pub open spec fn replace_first(ls: Seq<Seq<char>>, p: Seq<char>, new: Seq<char>) -> Seq<Seq<char>> {
    match first_prefix_index(ls, p) {
        Some(k) => ls.update(k, new),
        None => ls,
    }
}

proof fn lemma_first_prefix_exists(ls: Seq<Seq<char>>, p: Seq<char>, k: int)
    requires
        0 <= k < ls.len(),
        starts_with_spec(ls[k], p),
    ensures
        first_prefix_index(ls, p) is Some,
    decreases k,
{
    if exists|j: int| 0 <= j < k && starts_with_spec(#[trigger] ls[j], p) {
        let j = choose|j: int| 0 <= j < k && starts_with_spec(#[trigger] ls[j], p);
        lemma_first_prefix_exists(ls, p, j);
    } else {
        assert(0 <= k < ls.len() && starts_with_spec(ls[k], p) && forall|j: int|
            0 <= j < k ==> !starts_with_spec(#[trigger] ls[j], p));
    }
}

fn find_prefix_line(ls: &Vec<Vec<char>>, p: &str) -> (r: Option<usize>)
    ensures
        match r {
            Some(k) => first_prefix_index(views(ls@), p@) == Some(k as int),
            None => first_prefix_index(views(ls@), p@) is None,
        },
{
    let ghost lv = views(ls@);
    let mut i: usize = 0;
    while i < ls.len()
        invariant
            i <= ls@.len(),
            lv == views(ls@),
            forall|j: int| 0 <= j < i ==> !starts_with_spec(#[trigger] lv[j], p@),
        decreases ls.len() - i,
    {
        assert(lv[i as int] == ls@[i as int]@);
        if starts_with_str(ls[i].as_slice(), p) {
            proof {
                let k = choose|k: int|
                    0 <= k < lv.len() && starts_with_spec(#[trigger] lv[k], p@) && forall|j: int|
                        0 <= j < k ==> !starts_with_spec(#[trigger] lv[j], p@);
                assert(starts_with_spec(lv[i as int], p@));
                if k < i {
                    assert(!starts_with_spec(lv[k], p@));
                }
                if k > i {
                    assert(!starts_with_spec(lv[i as int], p@));
                }
            }
            return Some(i);
        }
        i = i + 1;
    }
    None
}

fn replace_first_line(ls: &mut Vec<Vec<char>>, p: &str, new: Vec<char>)
    ensures
        views(final(ls)@) == replace_first(views(old(ls)@), p@, new@),
{
    match find_prefix_line(ls, p) {
        Some(k) => {
            let ghost before = views(ls@);
            ls.set(k, new);
            assert(views(ls@) =~= before.update(k as int, new@));
        },
        None => {},
    }
}

fn marker_line(marker: &str, value: &str) -> (r: Vec<char>)
    ensures
        r@ == marker@ + value@ + " -->"@,
{
    let mut out: Vec<char> = Vec::new();
    push_str(&mut out, marker);
    push_str(&mut out, value);
    push_str(&mut out, " -->");
    out
}

fn title_line(title: &str) -> (r: Vec<char>)
    ensures
        r@ == "# "@ + title@,
{
    let mut out: Vec<char> = Vec::new();
    push_str(&mut out, "# ");
    push_str(&mut out, title);
    out
}

pub open spec fn has_prefix_line(ls: Seq<Seq<char>>, p: Seq<char>) -> bool {
    exists|k: int| 0 <= k < ls.len() && starts_with_spec(#[trigger] ls[k], p)
}

/// The header lines after an edit: title, category and tag lines replaced where
/// given, and the update time set to `now`.
pub open spec fn edited_header_lines(
    ls0: Seq<Seq<char>>,
    title: Option<Seq<char>>,
    category: Option<Seq<char>>,
    tags: Option<Seq<char>>,
    now: Seq<char>,
) -> Seq<Seq<char>> {
    let ls1 = match title {
        Some(t) => replace_first(ls0, "# "@, "# "@ + t),
        None => ls0,
    };
    let ls2 = match category {
        Some(c) => replace_first(ls1, "<!-- category:"@, "<!-- category:"@ + c + " -->"@),
        None => ls1,
    };
    let ls3 = match tags {
        Some(t) => replace_first(ls2, "<!-- tags:"@, "<!-- tags:"@ + t + " -->"@),
        None => ls2,
    };
    replace_first(ls3, "<!-- updated:"@, "<!-- updated:"@ + now + " -->"@)
}

/// The lines up to the title line (one titled `fallback` is added where there is
/// none), a blank line, and the lines of the new body without its envelope.
pub open spec fn body_replaced(ls: Seq<Seq<char>>, fallback: Seq<char>, content: Seq<char>) -> Seq<Seq<char>> {
    let (l, k) = match first_prefix_index(ls, "# "@) {
        Some(k) => (ls, k),
        None => (ls.push("# "@ + fallback), ls.len() as int),
    };
    l.take(k + 1).push(Seq::empty()) + lines_spec(strip_envelope_spec(content))
}

/// `ls`, with a blank line and a title line titled `fallback` added where no line
/// is a title.
pub open spec fn titled(ls: Seq<Seq<char>>, fallback: Seq<char>) -> Seq<Seq<char>> {
    if has_prefix_line(ls, "# "@) {
        ls
    } else {
        ls.push(Seq::empty()).push("# "@ + fallback)
    }
}

/// The lines of a document after an edit: the header edited, the body replaced
/// where a body is given, and a title line added where none is left.
pub open spec fn rewritten_lines(
    existing: Seq<char>,
    safe_id: Seq<char>,
    title: Option<Seq<char>>,
    category: Option<Seq<char>>,
    tags: Option<Seq<char>>,
    content: Option<Seq<char>>,
    now: Seq<char>,
) -> Seq<Seq<char>> {
    let ls4 = edited_header_lines(lines_spec(existing), title, category, tags, now);
    let fallback = match title {
        Some(t) => t,
        None => safe_id,
    };
    let ls5 = match content {
        Some(c) => body_replaced(ls4, fallback, c),
        None => ls4,
    };
    titled(ls5, fallback)
}

fn edit_header_lines(
    ls: &mut Vec<Vec<char>>,
    title: Option<&str>,
    category: Option<&str>,
    tags: Option<&str>,
    now: &str,
)
    ensures
        views(final(ls)@) == edited_header_lines(
            views(old(ls)@),
            opt_str_view(title),
            opt_str_view(category),
            opt_str_view(tags),
            now@,
        ),
{
    match title {
        Some(t) => replace_first_line(ls, "# ", title_line(t)),
        None => {},
    }
    match category {
        Some(c) => replace_first_line(ls, "<!-- category:", marker_line("<!-- category:", c)),
        None => {},
    }
    match tags {
        Some(t) => replace_first_line(ls, "<!-- tags:", marker_line("<!-- tags:", t)),
        None => {},
    }
    replace_first_line(ls, "<!-- updated:", marker_line("<!-- updated:", now));
}

fn copy_lines(out: &mut Vec<Vec<char>>, src: &Vec<Vec<char>>, end: usize)
    requires
        end <= src@.len(),
    ensures
        views(final(out)@) == views(old(out)@) + views(src@).take(end as int),
{
    let ghost head = views(out@);
    let ghost sv = views(src@);
    let mut j: usize = 0;
    assert(sv.take(0) =~= Seq::<Seq<char>>::empty());
    assert(views(out@) =~= head + sv.take(0));
    while j < end
        invariant
            end <= src@.len(),
            j <= end,
            sv == views(src@),
            views(out@) == head + sv.take(j as int),
        decreases end - j,
    {
        let line = slice_to_vec(src[j].as_slice(), 0, src[j].len());
        assert(src@[j as int]@.subrange(0, src@[j as int]@.len() as int) =~= src@[j as int]@);
        let ghost before = views(out@);
        out.push(line);
        assert(views(out@) =~= before.push(sv[j as int]));
        assert(sv.take(j + 1) =~= sv.take(j as int).push(sv[j as int]));
        j = j + 1;
    }
}

fn replace_body(ls: Vec<Vec<char>>, fallback: &str, content: &str) -> (r: Vec<Vec<char>>)
    ensures
        views(r@) == body_replaced(views(ls@), fallback@, content@),
{
    let ghost ls4 = views(ls@);
    let mut ls = ls;
    let k = match find_prefix_line(&ls, "# ") {
        Some(k) => k,
        None => {
            ls.push(title_line(fallback));
            assert(views(ls@) =~= ls4.push("# "@ + fallback@));
            ls.len() - 1
        },
    };
    let mut result: Vec<Vec<char>> = Vec::new();
    assert(views(result@) =~= Seq::<Seq<char>>::empty());
    copy_lines(&mut result, &ls, k + 1);
    let ghost before = views(result@);
    result.push(Vec::new());
    assert(views(result@) =~= before.push(Seq::empty()));
    let body = strip_doc_envelope(content);
    let bc = chars_of(body.as_str());
    let bl = lines(bc.as_slice());
    copy_lines(&mut result, &bl, bl.len());
    assert(views(bl@).take(bl@.len() as int) =~= views(bl@));
    result
}

fn ensure_title_line(ls: &mut Vec<Vec<char>>, fallback: &str)
    ensures
        views(final(ls)@) == titled(views(old(ls)@), fallback@),
{
    let ghost ls5 = views(ls@);
    match find_prefix_line(ls, "# ") {
        None => {
            proof {
                if has_prefix_line(ls5, "# "@) {
                    let k = choose|k: int| 0 <= k < ls5.len() && starts_with_spec(#[trigger] ls5[k], "# "@);
                    lemma_first_prefix_exists(ls5, "# "@, k);
                }
            }
            ls.push(Vec::new());
            ls.push(title_line(fallback));
            assert(views(ls@) =~= ls5.push(Seq::empty()).push("# "@ + fallback@));
        },
        Some(k) => {
            assert(starts_with_spec(ls5[k as int], "# "@));
            assert(has_prefix_line(ls5, "# "@));
        },
    }
}

/// The text that `update_doc` writes for document `safe_id` with current text
/// `existing`, at time `now`.
pub fn rewrite_doc(
    existing: &str,
    safe_id: &str,
    title: Option<&str>,
    category: Option<&str>,
    tags: Option<&str>,
    content: Option<&str>,
    now: &str,
) -> (r: String)
    ensures
        r@ == join_spec(
            rewritten_lines(
                existing@,
                safe_id@,
                opt_str_view(title),
                opt_str_view(category),
                opt_str_view(tags),
                opt_str_view(content),
                now@,
            ),
            "\n"@,
        ),
{
    let ec = chars_of(existing);
    let mut ls = lines(ec.as_slice());
    edit_header_lines(&mut ls, title, category, tags, now);
    let fallback: &str = match title {
        Some(t) => t,
        None => safe_id,
    };
    let ls = match content {
        Some(c) => replace_body(ls, fallback, c),
        None => ls,
    };
    let mut ls = ls;
    ensure_title_line(&mut ls, fallback);
    let nl = chars_of("\n");
    let joined = join(ls.as_slice(), nl.as_slice());
    string_of(joined.as_slice())
}

/// The text of a new document.
pub open spec fn new_doc_spec(title: Seq<char>, category: Seq<char>, content: Seq<char>, now: Seq<char>) -> Seq<char> {
    "<!-- category:"@ + category + " -->\n<!-- tags: -->\n<!-- created:"@ + now + " -->\n<!-- updated:"@
        + now + " -->\n\n# "@ + title + "\n\n"@ + content
}

pub fn new_doc_text(title: &str, category: &str, content: &str, now: &str) -> (r: String)
    ensures
        r@ == new_doc_spec(title@, category@, content@, now@),
{
    let mut out: Vec<char> = Vec::new();
    push_str(&mut out, "<!-- category:");
    push_str(&mut out, category);
    push_str(&mut out, " -->\n<!-- tags: -->\n<!-- created:");
    push_str(&mut out, now);
    push_str(&mut out, " -->\n<!-- updated:");
    push_str(&mut out, now);
    push_str(&mut out, " -->\n\n# ");
    push_str(&mut out, title);
    push_str(&mut out, "\n\n");
    push_str(&mut out, content);
    string_of(out.as_slice())
}


// ---------------------------------------------------------------------------
// Laws
// ---------------------------------------------------------------------------

/// Updating a document with a new body writes that body back: the lines of the
/// rewritten document are its header up to the (single kept) title line, a blank
/// line, then exactly the lines of the new body (its envelope stripped); nothing of
/// the old body is left.
pub proof fn law_updated_body_is_read_back(
    existing: Seq<char>,
    safe_id: Seq<char>,
    title: Option<Seq<char>>,
    category: Option<Seq<char>>,
    tags: Option<Seq<char>>,
    content: Seq<char>,
    now: Seq<char>,
)
    ensures
        exists|head: Seq<Seq<char>>|
            #![trigger head.len()]
            head.len() >= 2 && starts_with_spec(head[head.len() - 2], "# "@) && head.last() == Seq::<char>::empty()
                && rewritten_lines(existing, safe_id, title, category, tags, Some(content), now) == head
                + lines_spec(strip_envelope_spec(content)),
{
    let ls4 = edited_header_lines(lines_spec(existing), title, category, tags, now);
    let fallback = match title {
        Some(t) => t,
        None => safe_id,
    };
    let (l, k) = match first_prefix_index(ls4, "# "@) {
        Some(k) => (ls4, k),
        None => (ls4.push("# "@ + fallback), ls4.len() as int),
    };
    let head = l.take(k + 1).push(Seq::empty());
    let body = lines_spec(strip_envelope_spec(content));
    let ls5 = body_replaced(ls4, fallback, content);
    assert(ls5 == head + body);
    match first_prefix_index(ls4, "# "@) {
        Some(kk) => {
            assert(0 <= kk < ls4.len() && starts_with_spec(ls4[kk], "# "@));
        },
        None => {
            reveal_strlit("# ");
            assert(starts_with_spec(l[k], "# "@)) by {
                assert(("# "@ + fallback).take(2) =~= "# "@);
            }
        },
    }
    assert(head[head.len() - 2] == l[k]);
    assert(ls5[k] == l[k]);
    assert(has_prefix_line(ls5, "# "@));
    assert(titled(ls5, fallback) == ls5);
}

/// A directory that was added is listed from then on, whether it was stored
/// already or is stored anew, as are the system and general directories.
pub proof fn law_created_dir_is_listed(
    name: Seq<char>,
    stored: Seq<Seq<char>>,
    written: Seq<Seq<char>>,
    categories: Seq<Seq<char>>,
)
    requires
        doc_dir_error(name) is None,
        forall|y: Seq<char>| written.contains(y) <==> kept_dir_name(stored.push(trim_spec(name)), y),
    ensures
        stored.contains(trim_spec(name)) ==> listed_doc_dir(stored, categories, trim_spec(name)),
        listed_doc_dir(written, categories, trim_spec(name)),
        listed_doc_dir(stored, categories, default_doc_category()),
        listed_doc_dir(written, categories, "通用"@),
{
    let clean = trim_spec(name);
    lemma_trim_idempotent(name);
    let s2 = stored.push(clean);
    assert(s2[stored.len() as int] == clean);
    assert(kept_dir_name(s2, clean));
}


// ---------------------------------------------------------------------------
// Listing
// ---------------------------------------------------------------------------

/// The documents of category `cat` (all when none is given), in order.
pub open spec fn docs_in_category(s: Seq<DocMeta>, cat: Option<Seq<char>>) -> Seq<DocMeta>
    decreases s.len(),
{
    if s.len() == 0 {
        s
    } else {
        let k = docs_in_category(s.drop_last(), cat);
        let keep = match cat {
            Some(c) => s.last().category@ == c,
            None => true,
        };
        if keep {
            k.push(s.last())
        } else {
            k
        }
    }
}

/// `s` (latest update first) with `x` after every document updated no earlier.
pub open spec fn insert_latest_first(s: Seq<DocMeta>, x: DocMeta) -> Seq<DocMeta>
    decreases s.len(),
{
    if s.len() == 0 {
        seq![x]
    } else if lex_le(x.updated_at@, s.last().updated_at@) {
        s.push(x)
    } else {
        insert_latest_first(s.drop_last(), x).push(s.last())
    }
}

/// A stable sort by update time, latest first.
pub open spec fn sort_latest_first(s: Seq<DocMeta>) -> Seq<DocMeta>
    decreases s.len(),
{
    if s.len() == 0 {
        s
    } else {
        insert_latest_first(sort_latest_first(s.drop_last()), s.last())
    }
}

proof fn lemma_insert_latest_split(s: Seq<DocMeta>, x: DocMeta, k: int)
    requires
        0 <= k <= s.len(),
        forall|j: int| k <= j < s.len() ==> !lex_le(x.updated_at@, #[trigger] s[j].updated_at@),
    ensures
        insert_latest_first(s, x) == insert_latest_first(s.take(k), x) + s.skip(k),
    decreases s.len() - k,
{
    if k < s.len() {
        lemma_insert_latest_split(s.drop_last(), x, k);
        assert(s.drop_last().take(k) =~= s.take(k));
        assert(s.drop_last().skip(k).push(s.last()) =~= s.skip(k));
    } else {
        assert(s.take(k) =~= s);
        assert(s.skip(k) =~= Seq::<DocMeta>::empty());
    }
}

fn insert_doc(v: &mut Vec<DocMeta>, x: DocMeta)
    ensures
        final(v)@ == insert_latest_first(old(v)@, x),
{
    let xt = chars_of(x.updated_at.as_str());
    let mut k: usize = v.len();
    while k > 0
        invariant
            k <= v.len(),
            v@ == old(v)@,
            xt@ == x.updated_at@,
            forall|j: int| k <= j < v.len() ==> !lex_le(x.updated_at@, #[trigger] v@[j].updated_at@),
        ensures
            k <= v.len(),
            v@ == old(v)@,
            forall|j: int| k <= j < v.len() ==> !lex_le(x.updated_at@, #[trigger] v@[j].updated_at@),
            k == 0 || lex_le(x.updated_at@, v@[k - 1].updated_at@),
        decreases k,
    {
        let et = chars_of(v[k - 1].updated_at.as_str());
        if lex_le_exec(xt.as_slice(), et.as_slice()) {
            break;
        }
        k = k - 1;
    }
    proof {
        lemma_insert_latest_split(v@, x, k as int);
        if k > 0 {
            assert(v@.take(k as int).last() == v@[k - 1]);
        }
    }
    let ghost before = v@;
    v.insert(k, x);
    assert(v@ =~= before.take(k as int).push(x) + before.skip(k as int));
}

/// The documents of `category` (all when none is given), latest update first.
pub fn list_docs(docs: Vec<DocMeta>, category: Option<&str>) -> (r: Vec<DocMeta>)
    ensures
        r@ == sort_latest_first(docs_in_category(docs@, opt_str_view(category))),
{
    let ghost all = docs@;
    let ghost cat = opt_str_view(category);
    let n: usize = docs.len();
    let cat_chars: Option<Vec<char>> = match category {
        Some(c) => Some(chars_of(c)),
        None => None,
    };
    let mut rest = docs;
    let mut sorted: Vec<DocMeta> = Vec::new();
    let mut i: usize = 0;
    assert(all.take(0) =~= Seq::<DocMeta>::empty());
    while rest.len() > 0
        invariant
            i + rest@.len() == all.len(),
            all.len() == n,
            rest@ =~= all.skip(i as int),
            match cat_chars {
                Some(c) => cat == Some(c@),
                None => cat is None,
            },
            sorted@ == sort_latest_first(docs_in_category(all.take(i as int), cat)),
        decreases rest@.len(),
    {
        let x = rest.remove(0);
        let ghost t = all.take(i + 1);
        proof {
            assert(x == all[i as int]);
            assert(t.drop_last() =~= all.take(i as int));
            assert(t.last() == x);
        }
        let keep = match &cat_chars {
            Some(c) => {
                let xc = chars_of(x.category.as_str());
                crate::text::seq_eq(xc.as_slice(), c.as_slice())
            },
            None => true,
        };
        let ghost f = docs_in_category(all.take(i as int), cat);
        proof {
            assert(keep == match cat {
                Some(c) => t.last().category@ == c,
                None => true,
            });
            if keep {
                assert(docs_in_category(t, cat) == f.push(x));
                assert(f.push(x).drop_last() =~= f);
            } else {
                assert(docs_in_category(t, cat) == f);
            }
        }
        if keep {
            insert_doc(&mut sorted, x);
        }
        i = i + 1;
        assert(all.skip(i as int) =~= all.skip(i - 1).drop_first());
    }
    assert(all.take(i as int) =~= all);
    sorted
}

} // verus!
