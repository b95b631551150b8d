//! The fixed parts of the pages.
use vstd::prelude::*;

verus! {

// The login page, parted where it is filled in.

pub const LOGIN_TO_STYLE: &'static str = r#"<!doctype html>
<html lang="zh-CN">
<head><meta charset="utf-8"><meta name="viewport" content="width=device-width, initial-scale=1"><title>Codex Office · 登录</title>"#;

pub const LOGIN_TO_ERROR: &'static str = r#"</head>
<body class="auth-page"><main class="auth-shell">
<section class="auth-hero" aria-labelledby="login-title">
<div class="brand-mark" aria-hidden="true">✦</div>
<p class="eyebrow">AI-Native Workspace</p>
<h1 id="login-title">AI 协同办公室</h1>
<p class="hero-copy">每一个 Agent 都是一个可信赖的数字同事。委派、协作、复盘——如同与最优秀的团队共事。</p>
<div class="auth-highlights" aria-label="产品亮点">
<span>⚡ 实时 Agent 状态</span><span>💬 清晰上下文回复</span><span>📋 共享团队黑板</span><span>🧠 长期记忆成长</span>
</div>
</section>
<section class="auth-card" aria-label="登录表单">"#;

pub const LOGIN_END: &'static str = r#"
<div style="margin-bottom:18px"><span class="live-badge">系统在线</span></div>
<form method="post" action="/login" class="stacked-form">
<label>账号 <input name="username" autocomplete="username" required placeholder="例如：userA"></label>
<label>密码 <input name="password" type="password" autocomplete="current-password" required placeholder="输入密码"></label>
<button type="submit">进入我的办公室</button>
</form>
<p class="section-help" style="margin-top:14px">试点账号：userA · userB · userC · userD · userE · userF</p>
</section>
</main></body></html>"#;

// The dashboard.

pub const DASHBOARD_TO_STYLE: &'static str = r#"<!doctype html>
<html lang="zh-CN">
<head><meta charset="utf-8"><meta name="viewport" content="width=device-width, initial-scale=1"><title>我的 Agent · Codex Office</title>"#;

pub const DASHBOARD_TO_AGENT_STATE: &'static str = r##"</head>
<body class="dashboard-page">
<div class="app-shell">
<aside class="side-rail" aria-label="导航">
<a class="rail-brand" href="/me" aria-label="Codex Office"><span>✦</span><strong>Codex<br>Office</strong></a>
<nav>
<a class="active" href="/me">🏠 仪表盘</a>
<a href="#agent-composer">✏️ 委派任务</a>
<a href="#human-inbox-section">📨 我的收件箱</a>
<a href="#activity-section">📊 活动流</a>
<a href="/blackboard">📋 共享黑板</a>
</nav>
<form method="post" action="/logout" class="rail-logout"><button type="submit" class="ghost-button" style="width:100%;color:rgba(255,255,255,.5)">退出登录</button></form>
</aside>
<main class="office-main">
<section class="hero-panel" aria-labelledby="dashboard-title">
<div>
<div style="display:flex;align-items:center;gap:8px;margin-bottom:6px"><span class="live-badge">在线</span><p class="eyebrow" style="margin:0">你的 AI 办公室</p></div>
<h1 id="dashboard-title">我的 Agent</h1>
<p class="hero-copy">一个入口委派任务，一眼看懂状态、回复与交付物。Agent 会记住你的偏好，越用越懂你。</p>
</div>
<div class="hero-status" aria-label="Agent 状态">
<span class="state-chip state-"##;

pub const DASHBOARD_TO_STATE_EMOJI: &'static str = r#"" id="agent-state">"#;

pub const DASHBOARD_TO_STATE_LABEL: &'static str = r#" "#;

pub const DASHBOARD_TO_QUEUED_COUNT: &'static str = r#"</span>
<span class="metric"><strong id="queued-count">"#;

pub const DASHBOARD_TO_HUMAN_QUEUED_COUNT: &'static str = r#"</strong><small>待处理</small></span>
<span class="metric"><strong id="human-queued-count">"#;

pub const DASHBOARD_TO_USERNAME_INITIAL: &'static str = r#"</strong><small>待我回复</small></span>
</div>
</section>
<section class="identity-grid" aria-label="身份与画像">
<article class="surface-card identity-card">
<div class="card-heading"><span class="avatar" aria-hidden="true">"#;

pub const DASHBOARD_TO_USERNAME: &'static str = r#"</span><div><p class="eyebrow">Owner</p><h2>"#;

pub const DASHBOARD_TO_USER_ID: &'static str = r#"</h2></div></div>
<div class="meta-grid"><span>User <code>"#;

pub const DASHBOARD_TO_AGENT_ID: &'static str = r#"</code></span><span>Agent <code>"#;

pub const DASHBOARD_TO_ROLE: &'static str = r#"</code></span><span>角色 "#;

pub const DASHBOARD_TO_CAPABILITIES: &'static str = r#"</span></div>
</article>
<article class="surface-card profile-card">
<div class="card-heading"><div><p class="eyebrow">主人画像</p><h2>偏好与边界</h2></div><form method="post" action="/api/owner-profile/sync"><button type="submit" class="secondary-button">🔄 同步到 Agent Prompt</button></form></div>
<div class="tag-cloud"><span>🎯 "#;

pub const DASHBOARD_TO_AVOID: &'static str = r#"</span><span>🚫 "#;

pub const DASHBOARD_TO_REPORT_PREFERENCE: &'static str = r#"</span><span>📝 "#;

pub const DASHBOARD_TO_LAST_REFLECTION: &'static str = r#"</span></div>
<p class="section-help">最近复盘："#;

pub const DASHBOARD_TO_QUEUED_COUNT_AGAIN: &'static str = r#"</p>
</article>
</section>
<section class="command-card" id="agent-composer" aria-labelledby="composer-title">
<div class="command-copy">
<p class="eyebrow">委派命令</p>
<h2 id="composer-title">发给我的 Agent</h2>
<p>队列中有 <span class="count-pill" id="queued-count-shadow" style="background:rgba(139,92,246,.1);border-color:rgba(139,92,246,.2);color:var(--accent-2)">"#;

pub const DASHBOARD_TO_HUMAN_QUEUED_COUNT_AGAIN: &'static str = r#"</span> 条待处理消息。直接描述目标，Agent 会在活动流中同步进展。</p>
</div>
<form class="agent-message-form" method="post" action="/api/inbox">
<input type="hidden" name="need_reply" value="true">
<label>任务内容 <textarea name="content" rows="4" placeholder="例如：请帮我检查这份材料的逻辑，先给结论再列风险点，最后给出下一步建议。" required></textarea></label>
<div class="composer-actions"><button type="submit">🚀 委派给我的 Agent</button><span>💡 先结论、再风险、最后下一步</span></div>
</form>
</section>
<div class="workspace-grid">
<section class="surface-card stream-panel" id="human-inbox-section">
<div class="section-header"><div><p class="eyebrow">收件箱</p><h2>Agent 给我的消息</h2></div><span class="count-pill" style="background:rgba(245,158,11,.1);border-color:rgba(245,158,11,.2);color:var(--warn)">待回复 <span id="human-queued-count-shadow">"#;

pub const DASHBOARD_TO_HUMAN_INBOX_ITEMS: &'static str = r#"</span></span></div>
<div class="stream-toolbar">
<div class="filter-tabs" id="inbox-filters">
<button class="filter-tab active" data-filter="all">全部</button>
<button class="filter-tab" data-filter="pending">待回复</button>
<button class="filter-tab" data-filter="replied">已回复</button>
</div>
<button class="ghost-button stream-expand" id="inbox-expand" title="展开/折叠全部">📋 展开全部</button>
</div>
<div class="stream-scroll" id="inbox-scroll">
<ol class="human-inbox" id="human-inbox-list">"#;

pub const DASHBOARD_TO_ACTIVITY_ITEMS: &'static str = r#"</ol>
</div>
</section>
<section class="surface-card stream-panel" id="activity-section">
<div class="section-header"><div><p class="eyebrow">实时动态</p><h2>Agent 活动流</h2></div><p class="activity-status" id="activity-status">自动刷新中</p></div>
<div class="stream-toolbar">
<div class="filter-tabs" id="activity-filters">
<button class="filter-tab active" data-filter="all">全部</button>
<button class="filter-tab" data-filter="tool">🔧 工具调用</button>
<button class="filter-tab" data-filter="summary">📝 工作摘要</button>
<button class="filter-tab" data-filter="reply">💬 Agent 回复</button>
</div>
<button class="ghost-button stream-expand" id="activity-expand" title="展开/折叠全部">📋 展开全部</button>
</div>
<div class="stream-scroll" id="activity-scroll">
<ol class="activity" id="activity-list">"#;

pub const DASHBOARD_TO_DASHBOARD_SCRIPT: &'static str = r#"</ol>
</div>
</section>
<aside class="surface-card artifact-panel" aria-label="快捷操作">
<div class="section-header"><div><p class="eyebrow">Workspace</p><h2>工作区</h2></div></div>
<a class="quick-link" href="/interview"><strong>📋 首次访谈</strong><span>填写或更新主人画像 →</span></a>
<form method="post" action="/api/reflection" class="reflection-form">
<label style="font-size:.85em">每日复盘 <input name="profile_updates" placeholder="客户关系, 招聘判断"></label>
<button type="submit" class="secondary-button" style="width:100%">💾 保存复盘</button>
</form>
<a class="quick-link" href="/blackboard"><strong>📋 共享黑板</strong><span>查看 Agent 协作进展 →</span></a>
</aside>
</div>
</main>
</div>"#;

pub const DASHBOARD_END: &'static str = r#"</body></html>"#;

// The interview.

pub const INTERVIEW_TO_STYLE: &'static str = r#"<!doctype html>
<html lang="zh-CN"><head><meta charset="utf-8"><meta name="viewport" content="width=device-width, initial-scale=1"><title>首次访谈 · Codex Office</title>"#;

pub const INTERVIEW_END: &'static str = r#"</head>
<body class="simple-page"><main class="form-shell"><section class="surface-card feature-form"><p class="eyebrow">🧭 Onboarding</p><h1>首次访谈：建立主人画像</h1><p class="hero-copy">让 Agent 先理解你的职责、擅长领域和沟通偏好。越清晰的画像，越少打扰、越快对齐。</p>
<div class="divider"></div>
<form method="post" action="/interview" class="stacked-form">
<label>🎯 你的角色 / 职责 <input name="role" required placeholder="例如：产品负责人 / CEO / 招聘负责人"></label>
<label>💪 能力标签（逗号分隔） <input name="capabilities" required placeholder="战略判断, 客户关系, 技术评审"></label>
<label>🚫 不希望 Agent 打扰你的事项（逗号分隔） <input name="avoid" placeholder="低优先级同步, 已归档项目"></label>
<label>📝 汇报偏好 <input name="report_preference" placeholder="先结论后细节"></label>
<div class="composer-actions" style="margin-top:8px"><button type="submit">💾 保存画像</button><a class="text-link" href="/me">← 返回仪表盘</a></div>
</form></section></main></body></html>"#;

// The blackboard.

pub const BLACKBOARD_TO_STYLE: &'static str = r#"<!doctype html>
<html lang="zh-CN"><head><meta charset="utf-8"><meta name="viewport" content="width=device-width, initial-scale=1"><title>共享黑板 · Codex Office</title>"#;

pub const BLACKBOARD_TO_NOTES: &'static str = r#"</head>
<body class="simple-page"><main class="board-shell">
<section class="hero-panel"><div><p class="eyebrow">📋 Shared Memory</p><h1>共享黑板</h1><p class="hero-copy">Agent 回复、项目进展和团队目标沉淀为可复用的协作记忆。越用越聪明。</p></div><a class="secondary-button" href="/me">← 返回我的 Agent</a></section>
<div class="workspace-grid board-grid">
<section class="surface-card"><div class="section-header"><div><p class="eyebrow">📝 Notes</p><h2>共享笔记</h2></div></div>"#;

pub const BLACKBOARD_TO_GOALS: &'static str = r#"</section>
<aside class="surface-card"><div class="section-header"><div><p class="eyebrow">🎯 Goals</p><h2>公司目标</h2></div></div><ul class="compact-list">"#;

pub const BLACKBOARD_TO_PROJECTS: &'static str = r#"</ul></aside>
<aside class="surface-card"><div class="section-header"><div><p class="eyebrow">📁 Projects</p><h2>活跃项目</h2></div></div><ul class="compact-list">"#;

pub const BLACKBOARD_END: &'static str = r#"</ul></aside>
</div>
</main></body></html>"#;

} // verus!
