//! Reports as web pages: a page holds the results as JSON in the middle of a fixed text that shows
//! them.

use vstd::prelude::*;
use vstd::string::*;

verus! {

/// What comes before the results in the page of a warm-start benchmark.
pub const PAGE_HEAD: &'static str = r##"<!DOCTYPE html>
<html lang="en">
<head>
<meta charset="utf-8">
<title>MXC Library-Mode Benchmark</title>
<style>
  :root {
    --bg: #fff; --fg: #1a1a2e; --card-bg: #f8f9fa; --border: #dee2e6;
    --accent1: #2563eb; --accent2: #dc2626; --accent3: #059669;
    --grid: #e9ecef; --muted: #6c757d;
  }
  @media (prefers-color-scheme: dark) {
    :root {
      --bg: #0d1117; --fg: #e6edf3; --card-bg: #161b22; --border: #30363d;
      --accent1: #58a6ff; --accent2: #f85149; --accent3: #3fb950;
      --grid: #21262d; --muted: #8b949e;
    }
  }
  :root[data-theme="dark"] {
    --bg: #0d1117; --fg: #e6edf3; --card-bg: #161b22; --border: #30363d;
    --accent1: #58a6ff; --accent2: #f85149; --accent3: #3fb950;
    --grid: #21262d; --muted: #8b949e;
  }
  :root[data-theme="light"] {
    --bg: #fff; --fg: #1a1a2e; --card-bg: #f8f9fa; --border: #dee2e6;
    --accent1: #2563eb; --accent2: #dc2626; --accent3: #059669;
    --grid: #e9ecef; --muted: #6c757d;
  }

  * { margin: 0; padding: 0; box-sizing: border-box; }
  body {
    font-family: -apple-system, BlinkMacSystemFont, "Segoe UI", Roboto, sans-serif;
    background: var(--bg); color: var(--fg);
    max-width: 1100px; margin: 0 auto; padding: 2rem 1rem;
  }
  h1 { font-size: 1.6rem; margin-bottom: 0.25rem; }
  .subtitle { color: var(--muted); margin-bottom: 2rem; font-size: 0.9rem; }
  .stats-grid {
    display: grid; grid-template-columns: repeat(auto-fit, minmax(200px, 1fr));
    gap: 1rem; margin-bottom: 2rem;
  }
  .stat-card {
    background: var(--card-bg); border: 1px solid var(--border);
    border-radius: 8px; padding: 1rem;
  }
  .stat-card .label { font-size: 0.75rem; color: var(--muted); text-transform: uppercase; letter-spacing: 0.05em; }
  .stat-card .value { font-size: 1.5rem; font-weight: 700; font-variant-numeric: tabular-nums; }
  .stat-card .detail { font-size: 0.8rem; color: var(--muted); margin-top: 0.25rem; }

  .chart-container { background: var(--card-bg); border: 1px solid var(--border); border-radius: 8px; padding: 1.5rem; margin-bottom: 1.5rem; }
  .chart-title { font-size: 1rem; font-weight: 600; margin-bottom: 1rem; }
  canvas { width: 100% !important; }

  table {
    width: 100%; border-collapse: collapse; font-variant-numeric: tabular-nums;
    font-size: 0.85rem; margin-top: 1rem;
  }
  th, td { padding: 0.5rem 0.75rem; text-align: right; border-bottom: 1px solid var(--border); }
  th { text-align: right; font-weight: 600; font-size: 0.75rem; text-transform: uppercase; letter-spacing: 0.05em; color: var(--muted); }
  th:first-child, td:first-child { text-align: left; }
  .error-row { color: var(--accent2); }
</style>
</head>
<body>

<h1>MXC Library-Mode Benchmark</h1>
<p class="subtitle">In-process runner reuse — steady-state latency per backend</p>

<div class="stats-grid" id="statsGrid"></div>
<div class="chart-container">
  <div class="chart-title">Latency per Iteration (ms)</div>
  <canvas id="stripChart" height="300"></canvas>
</div>
<div class="chart-container">
  <div class="chart-title">Detailed Statistics</div>
  <table id="statsTable"></table>
</div>

<script>
const DATA = "##;

/// What comes after the results in the page of a warm-start benchmark.
pub const PAGE_TAIL: &'static str = r##";
const COLORS = ['#2563eb', '#dc2626', '#059669', '#f59e0b'];

// Stats cards
const grid = document.getElementById('statsGrid');
DATA.filter(d => !d.error).forEach((d, i) => {
  const card = document.createElement('div');
  card.className = 'stat-card';
  card.innerHTML = `
    <div class="label">${d.backend}</div>
    <div class="value" style="color:${COLORS[i]}">${d.stats.median_ms.toFixed(1)}ms</div>
    <div class="detail">median · ${d.stats.count} runs · setup ${(d.runner_create_ms||0).toFixed(0)}ms</div>
  `;
  grid.appendChild(card);
});

// Strip chart
const canvas = document.getElementById('stripChart');
const ctx = canvas.getContext('2d');
function drawChart() {
  const dpr = window.devicePixelRatio || 1;
  const rect = canvas.getBoundingClientRect();
  canvas.width = rect.width * dpr;
  canvas.height = rect.height * dpr;
  ctx.scale(dpr, dpr);
  const W = rect.width, H = rect.height;
  const pad = { top: 20, right: 20, bottom: 40, left: 60 };
  const plotW = W - pad.left - pad.right;
  const plotH = H - pad.top - pad.bottom;

  const valid = DATA.filter(d => !d.error);
  if (!valid.length) return;
  const maxIter = Math.max(...valid.map(d => d.iterations.length));
  const allTimes = valid.flatMap(d => d.iterations.map(it => it.elapsed_ms));
  const yMax = Math.max(...allTimes) * 1.1;

  const cs = getComputedStyle(document.documentElement);
  const fg = cs.getPropertyValue('--fg').trim() || '#333';
  const gridC = cs.getPropertyValue('--grid').trim() || '#eee';

  // Y grid
  ctx.strokeStyle = gridC; ctx.lineWidth = 0.5;
  const yTicks = 5;
  for (let i = 0; i <= yTicks; i++) {
    const y = pad.top + plotH - (i / yTicks) * plotH;
    ctx.beginPath(); ctx.moveTo(pad.left, y); ctx.lineTo(pad.left + plotW, y); ctx.stroke();
    ctx.fillStyle = fg; ctx.font = '11px sans-serif'; ctx.textAlign = 'right';
    ctx.fillText((yMax * i / yTicks).toFixed(0), pad.left - 8, y + 4);
  }

  // X axis label
  ctx.fillStyle = fg; ctx.font = '11px sans-serif'; ctx.textAlign = 'center';
  ctx.fillText('Iteration', pad.left + plotW / 2, H - 5);

  // Plot each backend
  valid.forEach((d, di) => {
    const color = COLORS[di % COLORS.length];
    ctx.strokeStyle = color; ctx.lineWidth = 2;
    ctx.beginPath();
    d.iterations.forEach((it, j) => {
      const x = pad.left + (j / (maxIter - 1 || 1)) * plotW;
      const y = pad.top + plotH - (it.elapsed_ms / yMax) * plotH;
      if (j === 0) ctx.moveTo(x, y); else ctx.lineTo(x, y);
    });
    ctx.stroke();

    // Dots
    ctx.fillStyle = color;
    d.iterations.forEach((it, j) => {
      const x = pad.left + (j / (maxIter - 1 || 1)) * plotW;
      const y = pad.top + plotH - (it.elapsed_ms / yMax) * plotH;
      ctx.beginPath(); ctx.arc(x, y, 3, 0, Math.PI * 2); ctx.fill();
    });

    // Legend
    const lx = pad.left + 10 + di * 160;
    const ly = pad.top + 14;
    ctx.fillStyle = color;
    ctx.fillRect(lx, ly - 8, 12, 12);
    ctx.fillStyle = fg; ctx.textAlign = 'left'; ctx.font = '12px sans-serif';
    ctx.fillText(d.backend, lx + 16, ly + 2);
  });
}
drawChart();
window.addEventListener('resize', drawChart);

// Stats table
const table = document.getElementById('statsTable');
let html = '<thead><tr><th>Backend</th><th>Median</th><th>Mean</th><th>Min</th><th>Max</th><th>P95</th><th>Stdev</th><th>Setup</th></tr></thead><tbody>';
DATA.forEach(d => {
  if (d.error) {
    html += `<tr class="error-row"><td>${d.backend}</td><td colspan="7">${d.error}</td></tr>`;
  } else {
    const s = d.stats;
    html += `<tr><td>${d.backend}</td><td>${s.median_ms.toFixed(1)}</td><td>${s.mean_ms.toFixed(1)}</td><td>${s.min_ms.toFixed(1)}</td><td>${s.max_ms.toFixed(1)}</td><td>${s.p95_ms.toFixed(1)}</td><td>${s.stdev_ms.toFixed(1)}</td><td>${(d.runner_create_ms||0).toFixed(0)}ms</td></tr>`;
  }
});
html += '</tbody>';
table.innerHTML = html;
</script>
</body>
</html>"##;

/// What comes before the results in the page of a full benchmark.
pub const FULL_PAGE_HEAD: &'static str = r##"<!DOCTYPE html>
<html lang="en">
<head>
<meta charset="utf-8">
<title>MXC Containment Benchmark</title>
<style>
  :root {
    --bg: #fafafa; --fg: #1a1a2e; --card-bg: #fff; --border: #e0e0e0;
    --accent1: #2563eb; --accent2: #dc2626; --accent3: #059669;
    --grid: #f0f0f0; --muted: #666; --header-bg: #f5f5f5;
    --tab-active: #2563eb; --tab-inactive: transparent;
  }
  @media (prefers-color-scheme: dark) {
    :root {
      --bg: #0d1117; --fg: #e6edf3; --card-bg: #161b22; --border: #30363d;
      --accent1: #58a6ff; --accent2: #f85149; --accent3: #3fb950;
      --grid: #21262d; --muted: #8b949e; --header-bg: #1c2128;
      --tab-active: #58a6ff;
    }
  }
  :root[data-theme="dark"] {
    --bg: #0d1117; --fg: #e6edf3; --card-bg: #161b22; --border: #30363d;
    --accent1: #58a6ff; --accent2: #f85149; --accent3: #3fb950;
    --grid: #21262d; --muted: #8b949e; --header-bg: #1c2128;
    --tab-active: #58a6ff;
  }
  :root[data-theme="light"] {
    --bg: #fafafa; --fg: #1a1a2e; --card-bg: #fff; --border: #e0e0e0;
    --accent1: #2563eb; --accent2: #dc2626; --accent3: #059669;
    --grid: #f0f0f0; --muted: #666; --header-bg: #f5f5f5;
    --tab-active: #2563eb;
  }
  * { margin: 0; padding: 0; box-sizing: border-box; }
  body {
    font-family: -apple-system, BlinkMacSystemFont, "Segoe UI", Roboto, sans-serif;
    background: var(--bg); color: var(--fg);
    max-width: 960px; margin: 0 auto; padding: 2rem 1.5rem;
    font-size: 14px; line-height: 1.5;
  }
  h1 { font-size: 1.5rem; margin-bottom: 0.25rem; }
  h2 { font-size: 1.1rem; margin: 2rem 0 0.75rem; }
  .subtitle { color: var(--muted); margin-bottom: 2rem; font-size: 0.85rem; }

  table {
    width: 100%; border-collapse: collapse; font-variant-numeric: tabular-nums;
    background: var(--card-bg); border: 1px solid var(--border); border-radius: 6px;
    overflow: hidden; margin-bottom: 1.5rem;
  }
  th, td { padding: 0.6rem 1rem; text-align: right; border-bottom: 1px solid var(--border); }
  th { background: var(--header-bg); font-weight: 600; font-size: 0.75rem;
       text-transform: uppercase; letter-spacing: 0.04em; color: var(--muted); }
  th:first-child, td:first-child { text-align: left; }
  tr:last-child td { border-bottom: none; }

  .note { color: var(--muted); font-size: 0.8rem; margin-top: -1rem; margin-bottom: 1.5rem; font-style: italic; }
  canvas { width: 100% !important; }
  .chart-box {
    background: var(--card-bg); border: 1px solid var(--border);
    border-radius: 6px; padding: 1.25rem; margin-bottom: 1.5rem;
  }

  .tabs {
    display: flex; gap: 0; border-bottom: 2px solid var(--border);
    margin-bottom: 1.5rem; margin-top: 1rem;
  }
  .tab {
    padding: 0.5rem 1.25rem; cursor: pointer; font-size: 0.85rem;
    font-weight: 500; color: var(--muted); border-bottom: 2px solid transparent;
    margin-bottom: -2px; transition: all 0.15s;
  }
  .tab:hover { color: var(--fg); }
  .tab.active { color: var(--fg); border-bottom-color: var(--tab-active); }
  .tab-panel { display: none; }
  .tab-panel.active { display: block; }
</style>
</head>
<body>

<h1>MXC Containment Benchmark</h1>
<p class="subtitle">Comparison of Hyperlight, NanVix, and WSLc backends</p>

<div id="app"></div>

<script>
const D = "##;

/// What comes after the results in the page of a full benchmark.
pub const FULL_PAGE_TAIL: &'static str = r##";
const COLORS = ['#2563eb', '#dc2626', '#059669'];
const app = document.getElementById('app');

function h(tag, attrs, ...children) {
  const el = document.createElement(tag);
  if (attrs) Object.entries(attrs).forEach(([k,v]) => {
    if (k === 'className') el.className = v;
    else if (k === 'style') Object.assign(el.style, v);
    else el.setAttribute(k, v);
  });
  children.flat().forEach(c => {
    if (typeof c === 'string') el.appendChild(document.createTextNode(c));
    else if (c) el.appendChild(c);
  });
  return el;
}

function fmt(v, unit) {
  if (v == null || v === 0) return '—';
  return v.toFixed(1) + (unit || '');
}

function drawLatencyChart(canvas, datasets) {
  const ctx = canvas.getContext('2d');
  const dpr = window.devicePixelRatio || 1;
  const rect = canvas.getBoundingClientRect();
  canvas.width = rect.width * dpr; canvas.height = rect.height * dpr;
  ctx.scale(dpr, dpr);
  const W = rect.width, H = rect.height;
  const pad = { top: 24, right: 20, bottom: 32, left: 56 };
  const pW = W - pad.left - pad.right, pH = H - pad.top - pad.bottom;
  const allT = datasets.flatMap(d => d.values);
  if (!allT.length) return;
  const yMax = Math.max(...allT) * 1.15;
  const maxN = Math.max(...datasets.map(d => d.values.length));
  const cs = getComputedStyle(document.documentElement);
  const fg = cs.getPropertyValue('--fg').trim() || '#333';
  const grid = cs.getPropertyValue('--grid').trim() || '#eee';
  ctx.strokeStyle = grid; ctx.lineWidth = 0.5;
  for (let i = 0; i <= 4; i++) {
    const y = pad.top + pH - (i / 4) * pH;
    ctx.beginPath(); ctx.moveTo(pad.left, y); ctx.lineTo(pad.left + pW, y); ctx.stroke();
    ctx.fillStyle = fg; ctx.font = '10px sans-serif'; ctx.textAlign = 'right';
    ctx.fillText((yMax * i / 4).toFixed(0), pad.left - 6, y + 3);
  }
  ctx.fillStyle = fg; ctx.font = '10px sans-serif'; ctx.textAlign = 'center';
  ctx.fillText('Iteration', pad.left + pW / 2, H - 4);
  datasets.forEach((ds, di) => {
    const color = COLORS[di % COLORS.length];
    ctx.strokeStyle = color; ctx.lineWidth = 1.5;
    ctx.beginPath();
    ds.values.forEach((v, j) => {
      const x = pad.left + (j / (maxN - 1 || 1)) * pW;
      const y = pad.top + pH - (v / yMax) * pH;
      j === 0 ? ctx.moveTo(x, y) : ctx.lineTo(x, y);
    });
    ctx.stroke();
    ctx.fillStyle = color;
    ds.values.forEach((v, j) => {
      const x = pad.left + (j / (maxN - 1 || 1)) * pW;
      const y = pad.top + pH - (v / yMax) * pH;
      ctx.beginPath(); ctx.arc(x, y, 2.5, 0, Math.PI * 2); ctx.fill();
    });
    const lx = pad.left + 8 + di * 140, ly = pad.top + 12;
    ctx.fillStyle = color; ctx.fillRect(lx, ly - 6, 10, 10);
    ctx.fillStyle = fg; ctx.textAlign = 'left'; ctx.font = '11px sans-serif';
    ctx.fillText(ds.label, lx + 14, ly + 3);
  });
}

// --- Front-page summary (all workloads at a glance) ---
{
  const allBackends = [...new Set(D.workloads.flatMap(wl =>
    wl.warm_start.filter(w => !w.error).map(w => w.backend)))];

  const sRows = [];
  D.workloads.forEach(wl => {
    sRows.push([wl.workload + ' warm-start (ms)', ...allBackends.map(b => {
      const r = wl.warm_start.find(w => w.backend === b);
      return r && !r.error ? fmt(r.stats.median_ms) : '—';
    })]);
    sRows.push([wl.workload + ' cold-start (ms)', ...allBackends.map(b => {
      const r = wl.cold_start.find(c => c.backend === b);
      return r && !r.error ? fmt(r.stats.median_ms) : '—';
    })]);
  });

  // Density (same across workloads, take from first)
  if (D.workloads.length) {
    const wl0 = D.workloads[0];
    sRows.push(['Commit (MB/runner)', ...allBackends.map(b => {
      const r = wl0.density.find(d => d.backend === b);
      if (!r) return '—';
      return r.note ? fmt(r.density_cost_mb) + ' *' : fmt(r.density_cost_mb);
    })]);
    sRows.push(['Fits in 1.5 GB', ...allBackends.map(b => {
      const r = wl0.density.find(d => d.backend === b);
      if (!r) return '—';
      return r.note ? String(r.fits_in_1500mb) + ' *' : String(r.fits_in_1500mb);
    })]);
  }

  // Parallel throughput (per-workload rows, matching warm/cold pattern)
  D.workloads.forEach(wl => {
    if (wl.parallel && wl.parallel.length) {
      const conc = wl.parallel[0] ? wl.parallel[0].concurrency : '?';
      sRows.push([wl.workload + ' parallel (' + conc + '×, exec/s)', ...allBackends.map(b => {
        const r = wl.parallel.find(p => p.backend === b);
        if (!r || r.error) return '—';
        return r.throughput_per_sec.toFixed(0);
      })]);
    }
  });

  // Disk
  sRows.push(['Disk footprint (MB)', ...allBackends.map(b => {
    const r = D.disk.find(d => d.backend === b);
    if (!r) return '—';
    if (r.total_mb > 0) return r.note ? fmt(r.total_mb) + ' *' : fmt(r.total_mb);
    return r.note ? 'N/A *' : '—';
  })]);

  const sHead = h('thead', null, h('tr', null,
    h('th', null, 'Metric'), ...allBackends.map(b => h('th', null, b))));
  const sBody = h('tbody', null,
    ...sRows.map(r => h('tr', null, ...r.map((cell, i) => h(i === 0 ? 'td' : 'td', null, cell)))));
  app.appendChild(h('h2', null, 'Summary'));
  app.appendChild(h('table', null, sHead, sBody));

  // Footnotes
  const sNotes = [];
  if (D.workloads.length) {
    D.workloads[0].density.filter(d => d.note).forEach(d => sNotes.push(d.backend + ': ' + d.note));
  }
  D.disk.filter(d => d.note).forEach(d => sNotes.push(d.backend + ' disk: ' + d.note));
  if (sNotes.length) {
    app.appendChild(h('p', {className: 'note'}, '* ' + sNotes.join('. ')));
  }
}

// --- Build per-workload tabs ---
const multiWorkload = D.workloads.length > 1;
const allCanvases = [];

if (multiWorkload) {
  const tabBar = h('div', {className: 'tabs'});
  D.workloads.forEach((wl, wi) => {
    const tab = h('div', {className: 'tab' + (wi === 0 ? ' active' : '')}, wl.workload);
    tab.onclick = () => {
      tabBar.querySelectorAll('.tab').forEach(t => t.classList.remove('active'));
      tab.classList.add('active');
      document.querySelectorAll('.tab-panel').forEach(p => p.classList.remove('active'));
      document.getElementById('wl-' + wi).classList.add('active');
      // redraw canvases in the newly visible panel (delay for layout reflow)
      setTimeout(() => {
        allCanvases.filter(c => c.panel === wi).forEach(c => c.draw());
      }, 50);
    };
    tabBar.appendChild(tab);
  });
  app.appendChild(tabBar);
}

D.workloads.forEach((wl, wi) => {
  const panel = h('div', {
    className: 'tab-panel' + (wi === 0 || !multiWorkload ? ' active' : ''),
    id: 'wl-' + wi
  });

  const backends = wl.warm_start.filter(w => !w.error).map(w => w.backend);

  // Warm-start chart
  const warmDs = wl.warm_start.filter(w => !w.error).map(w => ({
    label: w.backend, values: w.iterations.map(it => it.elapsed_ms)
  }));
  if (warmDs.length) {
    panel.appendChild(h('h2', null, 'Warm-start latency'));
    const box = h('div', {className: 'chart-box'});
    const cv = h('canvas', {height: '220'});
    box.appendChild(cv); panel.appendChild(box);
    const draw = () => { if (cv.getBoundingClientRect().width > 0) drawLatencyChart(cv, warmDs); };
    allCanvases.push({ panel: wi, draw });
    if (wi === 0 || !multiWorkload) setTimeout(draw, 0);
    window.addEventListener('resize', draw);
  }

  // Cold-start chart
  const coldDs = wl.cold_start.filter(c => !c.error).map(c => ({
    label: c.backend, values: c.entries.map(e => e.elapsed_ms)
  }));
  if (coldDs.length) {
    panel.appendChild(h('h2', null, 'Cold-start latency'));
    const box = h('div', {className: 'chart-box'});
    const cv = h('canvas', {height: '220'});
    box.appendChild(cv); panel.appendChild(box);
    const draw = () => { if (cv.getBoundingClientRect().width > 0) drawLatencyChart(cv, coldDs); };
    allCanvases.push({ panel: wi, draw });
    if (wi === 0 || !multiWorkload) setTimeout(draw, 0);
    window.addEventListener('resize', draw);
  }

  // Warm-start detail
  panel.appendChild(h('h2', null, 'Warm-start detail'));
  const wHead = h('thead', null, h('tr', null,
    ...['Backend','Median','Mean','Min','Max','P95','Stdev'].map(t => h('th', null, t))));
  const wBody = h('tbody', null, ...wl.warm_start.map(w => {
    if (w.error) return h('tr', null, h('td', null, w.backend), h('td', {colspan:'6'}, w.error));
    const s = w.stats;
    return h('tr', null, h('td',null,w.backend),
      ...[s.median_ms,s.mean_ms,s.min_ms,s.max_ms,s.p95_ms,s.stdev_ms].map(v=>h('td',null,fmt(v))));
  }));
  panel.appendChild(h('table', null, wHead, wBody));

  // Cold-start detail
  panel.appendChild(h('h2', null, 'Cold-start detail'));
  const cHead = h('thead', null, h('tr', null,
    ...['Backend','Median','Mean','Min','Max','P95','Stdev','Peak Commit'].map(t => h('th', null, t))));
  const cBody = h('tbody', null, ...wl.cold_start.map(c => {
    if (c.error) return h('tr', null, h('td', null, c.backend), h('td', {colspan:'7'}, c.error));
    const s = c.stats; const peakC = Math.max(...c.entries.map(e => e.peak_commit_mb));
    return h('tr', null, h('td',null,c.backend),
      ...[s.median_ms,s.mean_ms,s.min_ms,s.max_ms,s.p95_ms,s.stdev_ms].map(v=>h('td',null,fmt(v))),
      h('td',null,fmt(peakC)+' MB'));
  }));
  panel.appendChild(h('table', null, cHead, cBody));

  // Density detail
  panel.appendChild(h('h2', null, 'Density (memory commit)'));
  const dHead = h('thead', null, h('tr', null,
    ...['Backend','Cost (MB/runner)','Fits in 1.5 GB'].map(t => h('th', null, t))));
  const dBody = h('tbody', null, ...wl.density.map(d => {
    return h('tr', null, h('td',null,d.backend),
      h('td',null,fmt(d.density_cost_mb)), h('td',null,String(d.fits_in_1500mb)));
  }));
  panel.appendChild(h('table', null, dHead, dBody));

  // Parallel execution detail
  if (wl.parallel && wl.parallel.length) {
    const validPar = wl.parallel.filter(p => !p.error);
    if (validPar.length) {
      panel.appendChild(h('h2', null, 'Parallel execution (' + validPar[0].concurrency + '× concurrent)'));

      // Parallel chart: wall-clock per round
      const parDs = validPar.map(p => ({
        label: p.backend,
        values: p.rounds.map(r => r.wall_clock_ms)
      }));
      if (parDs.length) {
        const box = h('div', {className: 'chart-box'});
        const cv = h('canvas', {height: '220'});
        box.appendChild(cv); panel.appendChild(box);
        const draw = () => { if (cv.getBoundingClientRect().width > 0) drawLatencyChart(cv, parDs); };
        allCanvases.push({ panel: wi, draw });
        if (wi === 0 || !multiWorkload) setTimeout(draw, 0);
        window.addEventListener('resize', draw);
      }

      const pHead = h('thead', null, h('tr', null,
        ...['Backend','Concurrency','Wall-clock (ms)','Per-runner (ms)','Throughput (exec/s)'].map(t => h('th', null, t))));
      const pBody = h('tbody', null, ...validPar.map(p => {
        return h('tr', null,
          h('td',null,p.backend),
          h('td',null,String(p.concurrency)),
          h('td',null,fmt(p.wall_clock_stats.median_ms)),
          h('td',null,fmt(p.per_runner_stats.median_ms)),
          h('td',null,p.throughput_per_sec.toFixed(0)));
      }));
      panel.appendChild(h('table', null, pHead, pBody));
    }
  }

  app.appendChild(panel);
});

// --- Disk footprint (workload-independent, shown once outside tabs) ---
if (D.disk.some(d => d.files.length || d.note)) {
  app.appendChild(h('h2', null, 'Disk footprint'));
  const fHead = h('thead', null, h('tr', null,
    ...['Backend','On-disk (MB)','Files / Notes'].map(t => h('th', null, t))));
  const fBody = h('tbody', null, ...D.disk.map(d => {
    if (d.files.length) {
      const files = d.files.map(f => f.name + ' (' + fmt(f.actual_mb) + ' MB)').join(', ');
      return h('tr', null, h('td',null,d.backend), h('td',null,fmt(d.total_mb)),
        h('td',{style:{textAlign:'left'}},files));
    } else {
      return h('tr', null, h('td',null,d.backend), h('td',null,'N/A'),
        h('td',{style:{textAlign:'left',fontStyle:'italic',color:'var(--muted)'}}, d.note || 'No files found'));
    }
  }));
  app.appendChild(h('table', null, fHead, fBody));
}
</script>
</body>
</html>"##;

fn framed(head: &str, body: &str, tail: &str) -> (r: String)
    ensures
        r@ == head@ + body@ + tail@,
{
    let mut out = String::from_str(head);
    out.append(body);
    out.append(tail);
    out
}

/// The page that shows the results of a warm-start benchmark, given as JSON.
pub fn generate_html(json_data: &str) -> (r: String)
    ensures
        r@ == PAGE_HEAD@ + json_data@ + PAGE_TAIL@,
{
    framed(PAGE_HEAD, json_data, PAGE_TAIL)
}

/// The page that shows the results of a full benchmark, given as JSON.
pub fn generate_full_html(json_data: &str) -> (r: String)
    ensures
        r@ == FULL_PAGE_HEAD@ + json_data@ + FULL_PAGE_TAIL@,
{
    framed(FULL_PAGE_HEAD, json_data, FULL_PAGE_TAIL)
}

} // verus!
