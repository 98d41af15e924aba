//! The scripts that are run in a page: a snapshot of its elements, the element at a place, the
//! place of an element, pasting and waiting.
use vstd::prelude::*;
use vstd::string::*;

use crate::browser::command::Measure;
use crate::browser::target;
use crate::json;
use crate::json::{quote, Json, JsonView};
use crate::text;
use crate::text::{cat2, cat3, cat4, cat5, decimal_text, strip_prefix, trim};

verus! {

/// The elements that can be acted on.
pub const ACTION_SEL: &'static str = "a[href], button, input, textarea, select, [role], [onclick], [tabindex], summary, label, [contenteditable]";

/// The elements that tell what a page holds.
pub const DOM_SEL: &'static str = "body, main, nav, header, footer, aside, section, article, h1, h2, h3, h4, h5, h6, p, ul, ol, li, dl, dt, dd, blockquote, pre, code, table, caption, thead, tbody, tfoot, tr, th, td, form, fieldset, legend, figure, figcaption, img, canvas, svg, a[href], button, input, textarea, select, option, summary, label, [role], [aria-label], [contenteditable]";

/// What follows the settings in the script that takes a snapshot.
pub const SNAPSHOT_BODY: &'static str = r#";
function safeId(id){return /^[A-Za-z][\w:-]*$/.test(id)?id:null;}
function isHidden(el){
  if(!el.isConnected)return true;
  var style;try{style=window.getComputedStyle(el);}catch(e){return false;}
  if(style.display==='none'||style.visibility==='hidden'||Number(style.opacity)===0)return true;
  var r=el.getBoundingClientRect();return r.width===0&&r.height===0;
}
function cssPath(el){
  if(!(el instanceof Element))return '';
  var path=[];while(el&&el.nodeType===Node.ELEMENT_NODE&&path.length<6){
    var sel=el.tagName.toLowerCase();
    if(el.id&&safeId(el.id)){sel+='#'+el.id;path.unshift(sel);break;}
    var sib=el, nth=1;
    while((sib=sib.previousElementSibling)){if(sib.tagName===el.tagName)nth++;}
    sel+=':nth-of-type('+nth+')';path.unshift(sel);el=el.parentElement;
  }
  return path.join(' > ');
}
function xpathOf(el){
  if(el.id&&safeId(el.id))return "//*[@id='"+el.id+"']";
  var parts=[];var cur=el;
  while(cur&&cur.nodeType===1){
    var t=cur.tagName.toLowerCase();var idx=1;var sib=cur.previousElementSibling;
    while(sib){if(sib.tagName===cur.tagName)idx++;sib=sib.previousElementSibling;}
    parts.unshift(t+'['+idx+']');cur=cur.parentElement;
  }
  return '/'+parts.join('/');
}
function axRole(el){return el.getAttribute('role')||({button:'button',a:'link',input:'textbox',textarea:'textbox',select:'combobox',img:'img',h1:'heading',h2:'heading',h3:'heading',h4:'heading',h5:'heading',h6:'heading',label:'label'}[el.tagName.toLowerCase()]||'generic');}
// 受限 CSS 选择器:只允许 id/class/attr,拒绝伪类与嵌套组合,防止被 URL 或
// 文本污染。locator 全部经它校验后才会写入 data-denia-locator。
function safeCss(sel){if(typeof sel!=='string'||sel.length>100)return null;if(/[#.\[][^"'\\\s>+~:,()]*[^A-Za-z0-9_#.\-\[\]='")\s]/.test(sel))return null;if(/[>+~:,()]/.test(sel))return null;return /^[A-Za-z][\w-]*(#[A-Za-z][\w:-]*)?(\.[A-Za-z][\w-]*)*(\[[^\]]*\])*$/.test(sel)?sel:null;}
function escapeAttr(v){return String(v).replace(/\\/g,'\\\\').replace(/"/g,'\\"');}
// 为该元素生成稳定定位器:优先 id,其次唯一类(<=2 个互不包含的类),其次
// [aria-label]/[role]/[title] 属性组合,再退 name/text 精确匹配,最后 cssPath。
function genLocator(el){
  if(!(el instanceof Element))return null;
  if(el.id&&safeId(el.id))return '#'+el.id;
  var cls={};var total=0;
  Array.prototype.forEach.call(el.classList||[],function(c){cls[c]=true;total++;});
  var keys=Object.keys(cls).filter(function(c){if(!/^[A-Za-z][\w-]*$/.test(c))return false;var n=document.querySelectorAll('.'+c).length;return n>0&&n<=2&&!el.matches('.'+c+' .'+c);});
  if(keys.length>0&&keys.length<=2)return keys.map(function(c){return '.'+c;}).join('');
  var attrs={};
  if(el.getAttribute('aria-label'))attrs['aria-label']=el.getAttribute('aria-label');
  if(el.getAttribute('role'))attrs['role']=el.getAttribute('role');
  if(el.getAttribute('title'))attrs['title']=el.getAttribute('title');
  if(el.getAttribute('href'))attrs['href']=el.getAttribute('href');
  if(attrs['href']&&attrs['href'].indexOf('javascript:')===0)delete attrs['href'];
  if(Object.keys(attrs).length>0&&Object.keys(attrs).length<=2)return el.tagName.toLowerCase()+Object.keys(attrs).map(function(k){return '['+k+'="'+escapeAttr(attrs[k])+'"]';}).join('');
  return null;
}
// 以 locator 为核心的回退链:selector → xpath → (name,role) 文本匹配。
function resolveAnchors(el,out){
  var loc=genLocator(el);
  if(loc){try{if(document.querySelectorAll(loc).length===1)out.locator=loc;}catch(e){}}
  if(!out.locator&&out.selector)out.selectors=[out.selector];
  if(!out.locator&&out.xpath)out.xpaths=[out.xpath];
}
try{window.__zcodeRefs=new Map();}catch(e){window.__zcodeRefs=null;}
try{window.__zcodeRefMeta=new Map();}catch(e){window.__zcodeRefMeta=null;}
var elRef=(typeof WeakMap!=='undefined')?new WeakMap():null;
var vw=window.innerWidth||document.documentElement.clientWidth||0;
var vh=window.innerHeight||document.documentElement.clientHeight||0;
var nodes=document.querySelectorAll(ACTION_SEL);
var elements=[];var truncated=false;var count=0;
for(var i=0;i<nodes.length;i++){
  var el=nodes[i];
  if(!INCLUDE_HIDDEN&&isHidden(el))continue;
  if(count>=MAX){truncated=true;break;}
  count++;
  var ref='e'+count;
  if(window.__zcodeRefs)window.__zcodeRefs.set(ref,el);
  if(elRef)elRef.set(el,ref);
  var r=el.getBoundingClientRect();
  var rect={x:Math.round(r.x),y:Math.round(r.y),width:Math.round(r.width),height:Math.round(r.height)};
  var inViewport=r.top<vh&&r.bottom>0&&r.left<vw&&r.right>0;
  var tag=el.tagName.toLowerCase();
  var out={ref:ref,tag:tag,selector:cssPath(el),xpath:xpathOf(el),rect:rect,inViewport:inViewport};
  resolveAnchors(el,out);
  out.role=el.getAttribute('role')||'';
  out.name=(el.getAttribute('aria-label')||el.innerText||el.value||el.placeholder||el.getAttribute('title')||'').toString().slice(0,200);
  if(tag==='input'||tag==='textarea'){out.editable=true;out.inputType=el.type||'';}
  if(tag==='a'&&el.getAttribute('href'))out.href=el.href;
  if(tag==='select'){out.options=Array.prototype.slice.call(el.options).slice(0,20).map(function(o){return o.value;});}
  if(el.checked!==undefined)out.checked=!!el.checked;
  if(window.__zcodeRefMeta)window.__zcodeRefMeta.set(ref,{selector:out.selector,xpath:out.xpath,locator:out.locator||null,role:out.role,name:out.name,tag:tag});
  elements.push(out);
}
var domCount=0;var domTruncated=false;
var domNodes=document.querySelectorAll(DOM_SEL);var dom=[];
for(var j=0;j<domNodes.length;j++){
  if(domCount>=DOM_MAX){domTruncated=true;break;}
  var d=domNodes[j];
  if(!INCLUDE_HIDDEN&&isHidden(d))continue;
  domCount++;
  var txt=(d.innerText||'').trim();
  dom.push({tag:d.tagName.toLowerCase(),text:txt.length>120?txt.slice(0,120)+'…':txt});
}
// 轻量 AX 树:优先使用显式 aria 语义,补充可见文本和层级,供模型稳定定位。
var ax=[];var axCount=0;
var axSeen={};
function axWalk(el,depth){if(!el||depth>8||axCount>=DOM_MAX)return;var hidden=isHidden(el);if(hidden&&!INCLUDE_HIDDEN)return;var role=axRole(el);var name=(el.getAttribute('aria-label')||el.getAttribute('alt')||el.innerText||el.value||'').toString().trim().replace(/\s+/g,' ').slice(0,200);var axRef=(elRef&&el instanceof Element)?elRef.get(el):null;if(role!=='generic'||name){var key=role+'|'+name;if(!axRef&&axSeen[key]&&axSeen[key]<3){axSeen[key]=(axSeen[key]||0)+1;}else if(!axRef){axSeen[key]=1;}var loc=(role!=='generic'||name)?genLocator(el):null;try{if(loc&&document.querySelectorAll(loc).length!==1)loc=null;}catch(e){loc=null;}if(role!=='generic'||name){ax.push({role:role,name:name,level:depth,ref:axRef,locator:loc});axCount++;}}Array.prototype.forEach.call(el.children||[],function(child){axWalk(child,depth+1);});}
axWalk(document.body,0);
return JSON.stringify({
  url:location.href,title:document.title,viewportWidth:vw,viewportHeight:vh,
  scrollX:window.scrollX||0,scrollY:window.scrollY||0,
  elements:elements,truncated:truncated,
  dom:dom,domTruncated:domTruncated,accessibility:ax
});
})()"#;

/// What follows the place in the script that tells of an element.
pub const ELEMENT_BODY: &'static str = r#";
var el=document.elementFromPoint(x,y);
if(!el)return JSON.stringify({found:false});
if(!window.__zcodeRefs){try{window.__zcodeRefs=new Map();}catch(e){window.__zcodeRefs=null;}}
window.__zcodePtSeq=(window.__zcodePtSeq||0)+1;
var ref='p'+window.__zcodePtSeq;
if(window.__zcodeRefs)window.__zcodeRefs.set(ref,el);
var r=el.getBoundingClientRect();
var tag=el.tagName.toLowerCase();
var html=el.outerHTML||'';
return JSON.stringify({
  found:true,ref:ref,tag:tag,
  selector:(function(){if(el.id)return '#'+el.id;var s=tag;if(el.className&&typeof el.className==='string')s+='.'+el.className.trim().split(/\s+/).slice(0,2).join('.');return s;})(),
  xpath:(function(){if(el.id&&/^[A-Za-z][\w:-]*$/.test(el.id))return "//*[@id='"+el.id+"']";return '';})(),
  rect:{x:Math.round(r.x),y:Math.round(r.y),width:Math.round(r.width),height:Math.round(r.height)},
  text:(el.innerText||'').slice(0,300),
  html:html.length>400?html.slice(0,400)+'…':html,
  value:(el.value!==undefined?String(el.value):undefined)
});
})()"#;

/// What follows the reference in the script that finds the middle of an element.
pub const CENTER_BODY: &'static str = r#";
var map=window.__zcodeRefs;
if(!map)return JSON.stringify({found:false,reason:'no_snapshot'});
var el=map.get(ref);
if(!el||!el.isConnected){
  var meta=window.__zcodeRefMeta&&window.__zcodeRefMeta.get(ref);
  meta=meta||{};
  // 1) 稳定定位器(快照时生成,跨重绘稳定):精确 selector 解析。
  if(meta.locator){try{var hits=document.querySelectorAll(meta.locator);if(hits.length===1)el=hits[0];}catch(e){}}
  // 2) selector 回退。
  if((!el||!el.isConnected)&&meta.selector){try{var cs=document.querySelectorAll(meta.selector);if(cs.length===1)el=cs[0];}catch(e){}}
  // 3) xpath 回退。
  if((!el||!el.isConnected)&&meta.xpath){try{var x=document.evaluate(meta.xpath,document,null,XPathResult.FIRST_ORDERED_NODE_TYPE,null).singleNodeValue;if(x)el=x;}catch(e){}}
  // 4) 文本匹配回退:(role,name) 都匹配的元素(页面重排/SPA 路由后 selector
  //    可能漂移,name/aria-label 通常稳定)。
  if((!el||!el.isConnected)&&meta.name){var all=Array.prototype.slice.call(document.querySelectorAll('*'));for(var i=0;i<all.length;i++){var node=all[i];if(meta.role&&node.getAttribute('role')!==meta.role)continue;var nm=(node.getAttribute('aria-label')||node.getAttribute('alt')||node.innerText||node.value||node.placeholder||node.getAttribute('title')||'').toString().slice(0,200);if(nm===meta.name){el=node;break;}}}
  if(el&&el.isConnected&&window.__zcodeRefs)window.__zcodeRefs.set(ref,el);
}
if(!el||!el.isConnected)return JSON.stringify({found:false,reason:'stale_ref'});
var r=el.getBoundingClientRect();
if(r.width===0&&r.height===0)return JSON.stringify({found:false,reason:'hidden'});
return JSON.stringify({found:true,cx:r.x+r.width/2,cy:r.y+r.height/2});
})()"#;

/// What follows the text in the script that pastes it.
pub const PASTE_BODY: &'static str = r#";
var el=document.activeElement;
// activeElement 不可编辑时向上找 contenteditable 祖先(B 站等站点输入框是
// 嵌套结构,焦点常落在外层 div 或内层占位元素上)。
if(el&&!(el.isContentEditable||el instanceof HTMLInputElement||el instanceof HTMLTextAreaElement)){
  el=el.closest('[contenteditable="true"],[contenteditable=""],input,textarea')||el;
}
if(!el||!(el instanceof HTMLElement))return JSON.stringify({ok:false,error:'no_focused_input'});
var dt;
try{dt=new DataTransfer();}catch(e){return JSON.stringify({ok:false,error:'no_data_transfer'});}
dt.setData('text/plain',text);
var event;
try{event=new ClipboardEvent('paste',{clipboardData:dt,bubbles:true,cancelable:true});}
catch(e){
  event=document.createEvent('Event');
  event.initEvent('paste',true,true);
  event.clipboardData=dt;
}
var prevented=!el.dispatchEvent(event);
if(!prevented){
  // 未被页面拦截:对可编辑元素直接写入(与 beforeinput 兜底一致)
  if(el.isContentEditable){el.textContent+=text;}
  else if(el instanceof HTMLInputElement||el instanceof HTMLTextAreaElement){
    var start=el.selectionStart??el.value.length;var end=el.selectionEnd??el.value.length;
    el.value=el.value.slice(0,start)+text+el.value.slice(end);
    var pos=start+text.length;el.setSelectionRange(pos,pos);
    el.dispatchEvent(new Event('input',{bubbles:true}));
  }
  else return JSON.stringify({ok:false,error:'target_not_editable'});
}
return JSON.stringify({ok:true});
})()"#;

/// What follows the text in the script that looks for it.
pub const WAIT_BODY: &'static str = r#";
var present=document.body&&document.body.innerText.indexOf(needle)!==-1;
return JSON.stringify({present:present});
})()"#;

/// The script that tells where a page is.
pub const STATE_SCRIPT: &'static str = r#"(function(){return JSON.stringify({url:location.href,title:document.title,canGoBack:history.length>1,scrollX:window.scrollX||0,scrollY:window.scrollY||0,viewportWidth:window.innerWidth||0,viewportHeight:window.innerHeight||0});})()"#;

/// The script that tells how far a page has loaded.
pub const READY_SCRIPT: &'static str = r#"(function(){return JSON.stringify({state:document.readyState,url:location.href});})()"#;

/// What stands before the expression in the script that evaluates it.
pub const EVALUATE_HEAD: &'static str = r#"(function(){var __v;try{__v=(function(){return ("#;

/// What follows the expression in the script that evaluates it.
pub const EVALUATE_TAIL: &'static str = r#");})();}catch(e){return JSON.stringify({ok:false,message:String(e)});}var __s;try{__s=JSON.stringify(__v);}catch(e){__s=undefined;}if(typeof __s==='string')return JSON.stringify({ok:true,kind:'json',data:__s});return JSON.stringify({ok:true,kind:'str',data:String(__v)});})()"#;

/// What follows the words in the script that looks for an element.
pub const LOCATE_WORDS: &'static str = r#";var el=null;try{el=document.querySelector(q);}catch(e){}if(!el&&!"#;

/// What follows the search by label in the script that looks for an element.
pub const LOCATE_TEXTS: &'static str = r#"){var all=Array.from(document.querySelectorAll('*'));el=all.find(function(n){return (n.getAttribute('aria-label')||n.innerText||n.value||'').trim()===q;});}if(!el&&"#;

/// What follows the search by text in the script that looks for an element.
pub const LOCATE_BODY: &'static str = r#"){var nodes=Array.from(document.querySelectorAll('button,a,[role=button],[role=link],input,textarea,select,[onclick],[tabindex],summary,[contenteditable]'));el=nodes.find(function(n){var t=((n.innerText||n.getAttribute('aria-label')||n.value||n.placeholder)||'').trim();if(t===q)return true;if(t.indexOf(q)!==-1&&t.length<=q.length+30)return true;return false;})||null;}if(!el)return JSON.stringify({ok:false});var m=window.__zcodeRefs||new Map();var ref='l'+Date.now();m.set(ref,el);window.__zcodeRefs=m;return JSON.stringify({ok:true,ref:ref});})()"#;

/// What follows the values in the script that chooses options.
pub const SELECT_BODY: &'static str = r#";
var map=window.__zcodeRefs;var el=map?map.get(ref):null;
if(!el||!el.isConnected)return JSON.stringify({ok:false,error:'stale_ref'});
if(el.tagName!=='SELECT')return JSON.stringify({ok:false,error:'not_select'});
for(var i=0;i<el.options.length;i++){
  el.options[i].selected=values.indexOf(el.options[i].value)!==-1||values.indexOf(el.options[i].text)!==-1;
}
el.dispatchEvent(new Event('change',{bubbles:true}));
return JSON.stringify({ok:true});
})()"#;

/// What follows the wish in the script that checks a box.
pub const CHECK_BODY: &'static str = r#";
var map=window.__zcodeRefs;var el=map?map.get(ref):null;
if(!el||!el.isConnected)return JSON.stringify({ok:false,error:'stale_ref'});
if(typeof el.checked!=='boolean')return JSON.stringify({ok:false,error:'not_checkable'});
if(want===null)el.checked=!el.checked;else el.checked=want;
el.dispatchEvent(new Event('change',{bubbles:true}));
return JSON.stringify({ok:true,checked:el.checked});
})()"#;

/// What follows the selector in the script that looks for it.
pub const SELECTOR_BODY: &'static str = r#")});}
catch(e){return JSON.stringify({hit:false,error:'bad_selector'});}})()"#;

/// A truth value as it reads in a script.
pub open spec fn flag_text(flag: bool) -> Seq<char> {
    if flag {
        "true"@
    } else {
        "false"@
    }
}

fn show_flag(flag: bool) -> (text: &'static str)
    ensures
        text@ == flag_text(flag),
{
    if flag {
        "true"
    } else {
        "false"
    }
}

/// The script that takes a snapshot: of at most `max` elements that can be acted on and at most
/// `dom_max` others, and of the hidden ones only where it is asked for.
pub open spec fn snapshot_script(max: u32, dom_max: u32, include_hidden: bool) -> Seq<char> {
    "(function(){\nvar MAX="@ + text::decimal(max as nat) + ";var DOM_MAX="@ + text::decimal(dom_max as nat)
        + ";var INCLUDE_HIDDEN="@ + flag_text(include_hidden) + ";\nvar ACTION_SEL="@ + json::quoted(ACTION_SEL@)
        + ";var DOM_SEL="@ + json::quoted(DOM_SEL@) + SNAPSHOT_BODY@
}

/// The script that takes a snapshot.
pub fn snapshot_js(max: u32, dom_max: u32, include_hidden: bool) -> (script: String)
    ensures
        script@ == snapshot_script(max, dom_max, include_hidden),
{
    let limits = cat4(
        "(function(){\nvar MAX=",
        decimal_text(max as u64).as_str(),
        ";var DOM_MAX=",
        decimal_text(dom_max as u64).as_str(),
    );
    let settings = cat4(limits.as_str(), ";var INCLUDE_HIDDEN=", show_flag(include_hidden), ";\nvar ACTION_SEL=");
    let selectors = cat4(
        settings.as_str(),
        quote(ACTION_SEL).as_str(),
        ";var DOM_SEL=",
        quote(DOM_SEL).as_str(),
    );
    cat2(selectors.as_str(), SNAPSHOT_BODY)
}

/// The script that tells of the element at a place.
pub open spec fn element_script(x: Seq<char>, y: Seq<char>) -> Seq<char> {
    "(function(){\nvar x="@ + x + ",y="@ + y + ELEMENT_BODY@
}

/// The script that tells of the element at a place, and gives it a reference.
pub fn element_info_js(x: &Measure, y: &Measure) -> (script: String)
    ensures
        script@ == element_script(x.shown@, y.shown@),
{
    cat5("(function(){\nvar x=", x.shown.as_str(), ",y=", y.shown.as_str(), ELEMENT_BODY)
}

/// The script that finds the middle of an element that a snapshot gave a reference.
pub open spec fn center_script(ref_id: Seq<char>) -> Seq<char> {
    "(function(){\nvar ref="@ + json::quoted(ref_id) + CENTER_BODY@
}

/// The script that finds the middle of an element by its reference. Where the element has gone, it is
/// looked for by its locator, its selector, its path and its name.
pub fn resolve_ref_center_js(ref_id: &str) -> (script: String)
    ensures
        script@ == center_script(ref_id@),
{
    cat3("(function(){\nvar ref=", quote(ref_id).as_str(), CENTER_BODY)
}

/// The script that pastes a text.
pub open spec fn paste_script(text: Seq<char>) -> Seq<char> {
    "(async function(){\nvar text="@ + json::quoted(text) + PASTE_BODY@
}

/// The script that pastes a text where the cursor stands.
pub fn paste_text_js(text: &str) -> (script: String)
    ensures
        script@ == paste_script(text@),
{
    cat3("(async function(){\nvar text=", quote(text).as_str(), PASTE_BODY)
}

/// The script that tells whether a page shows a text.
pub open spec fn wait_script(needle: Seq<char>) -> Seq<char> {
    "(function(){\nvar needle="@ + json::quoted(needle) + WAIT_BODY@
}

/// The script that tells whether a page shows a text. It is the same whether the text is to come or
/// to go.
pub fn wait_text_js(text: &str, _want_present: bool) -> (script: String)
    ensures
        script@ == wait_script(text@),
{
    cat3("(function(){\nvar needle=", quote(text).as_str(), WAIT_BODY)
}

/// The script that evaluates an expression.
pub open spec fn evaluate_script(expression: Seq<char>) -> Seq<char> {
    EVALUATE_HEAD@ + expression + EVALUATE_TAIL@
}

/// The script that evaluates an expression, and tells what it came to as JSON.
pub fn evaluate_js(expression: &str) -> (script: String)
    ensures
        script@ == evaluate_script(expression@),
{
    cat3(EVALUATE_HEAD, expression, EVALUATE_TAIL)
}

/// The words that a locator looks for: after `text:` the text that is to be seen, and otherwise the
/// locator itself.
pub open spec fn sought(locator: Seq<char>) -> Seq<char> {
    match text::after_prefix(locator, "text:"@) {
        Some(words) => text::trimmed(words),
        None => locator,
    }
}

/// The script that looks for an element by a locator.
pub open spec fn locate_script(locator: Seq<char>) -> Seq<char> {
    let is_text = flag_text(text::after_prefix(locator, "text:"@) is Some);
    "(function(){var q="@ + json::quoted(sought(locator)) + LOCATE_WORDS@ + is_text + LOCATE_TEXTS@ + is_text
        + LOCATE_BODY@
}

/// The script that looks for an element by a locator, and gives it a reference.
pub fn locate_js(locator: &str) -> (script: String)
    ensures
        script@ == locate_script(locator@),
{
    let words = strip_prefix(locator, "text:");
    let is_text = show_flag(words.is_some());
    let sought = match words {
        Some(words) => trim(words.as_str()),
        None => locator.to_owned(),
    };
    let head = cat4("(function(){var q=", quote(sought.as_str()).as_str(), LOCATE_WORDS, is_text);
    cat4(head.as_str(), LOCATE_TEXTS, is_text, LOCATE_BODY)
}

/// The texts as JSON.
pub open spec fn json_texts(texts: Seq<Seq<char>>) -> Seq<JsonView> {
    texts.map_values(|text: Seq<char>| JsonView::Text(text))
}

/// The script that chooses options.
pub open spec fn select_script(ref_id: Seq<char>, values: Seq<Seq<char>>) -> Seq<char> {
    "(function(){\nvar ref="@ + json::quoted(ref_id) + ";var values="@ + json::compact(JsonView::Array(json_texts(values)))
        + SELECT_BODY@
}

/// The script that chooses the options of an element.
pub fn select_js(ref_id: &str, values: &Vec<String>) -> (script: String)
    ensures
        script@ == select_script(ref_id@, text::views(values@)),
{
    let mut items: Vec<Json> = Vec::new();
    let mut i: usize = 0;
    while i < values.len()
        invariant
            i <= values@.len(),
            json::trees(items@) =~= json_texts(text::views(values@)).take(i as int),
        decreases values@.len() - i,
    {
        let item = Json::Text(values[i].clone());
        assert(json::trees(items@.push(item)) =~= json::trees(items@).push(item@));
        items.push(item);
        i += 1;
    }
    assert(json::trees(items@) =~= json_texts(text::views(values@)));
    cat5(
        "(function(){\nvar ref=",
        quote(ref_id).as_str(),
        ";var values=",
        Json::array(items).to_text().as_str(),
        SELECT_BODY,
    )
}

/// Whether a box is to be checked, as it reads in a script.
pub open spec fn wish_text(checked: Option<bool>) -> Seq<char> {
    match checked {
        Some(checked) => flag_text(checked),
        None => "null"@,
    }
}

/// The script that checks a box.
pub open spec fn check_script(ref_id: Seq<char>, checked: Option<bool>) -> Seq<char> {
    "(function(){\nvar ref="@ + json::quoted(ref_id) + ";var want="@ + wish_text(checked) + CHECK_BODY@
}

/// The script that checks a box, or turns it where nothing is said.
pub fn check_js(ref_id: &str, checked: Option<bool>) -> (script: String)
    ensures
        script@ == check_script(ref_id@, checked),
{
    let wish = match checked {
        Some(checked) => show_flag(checked),
        None => "null",
    };
    cat5("(function(){\nvar ref=", quote(ref_id).as_str(), ";var want=", wish, CHECK_BODY)
}

/// The script that tells whether a selector finds anything.
pub open spec fn selector_script(selector: Seq<char>) -> Seq<char> {
    "(function(){\ntry{return JSON.stringify({hit:!!document.querySelector("@ + json::quoted(selector) + SELECTOR_BODY@
}

/// The script that tells whether a selector finds anything.
pub fn selector_js(selector: &str) -> (script: String)
    ensures
        script@ == selector_script(selector@),
{
    cat3("(function(){\ntry{return JSON.stringify({hit:!!document.querySelector(", quote(selector).as_str(), SELECTOR_BODY)
}

proof fn lemma_escaped_stays_quoted(c: char)
    ensures
        target::stays_quoted(json::escaped(c), '"', false),
{
    reveal_with_fuel(target::stays_quoted, 7);
    let last = json::escaped(c);
    let named = c == '\u{8}' || c == '\u{c}' || c == '\n' || c == '\r' || c == '\t';
    if (c as int) < 0x20 && !named {
        let (h, l) = (json::hex_digit(c as int / 16), json::hex_digit(c as int % 16));
        assert(h == '0' || h == '1');
        assert('0' <= l <= '9' || 'a' <= l <= 'f');
        assert(last =~= seq!['\\', 'u', '0', '0', h, l]);
        assert(last.drop_first() =~= seq!['u', '0', '0', h, l]);
        assert(last.drop_first().drop_first() =~= seq!['0', '0', h, l]);
        assert(seq!['0', '0', h, l].drop_first() =~= seq!['0', h, l]);
        assert(seq!['0', h, l].drop_first() =~= seq![h, l]);
        assert(seq![h, l].drop_first() =~= seq![l]);
        assert(seq![l].drop_first() =~= Seq::empty());
    } else if named || c == '"' || c == '\\' {
        assert(last.drop_first() =~= seq![last[1]]);
        assert(last.drop_first().drop_first() =~= Seq::empty());
    } else {
        assert(last.drop_first() =~= Seq::empty());
    }
}

/// Whatever a text holds, it does not end the quotes of the script that it is put into.
pub proof fn text_stays_inside_its_quotes(text: Seq<char>)
    ensures
        json::quoted(text) == seq!['"'] + json::escaped_all(text) + seq!['"'],
        target::stays_quoted(json::escaped_all(text), '"', false),
    decreases text.len(),
{
    if text.len() > 0 {
        text_stays_inside_its_quotes(text.drop_last());
        let last = json::escaped(text.last());
        lemma_escaped_stays_quoted(text.last());
        target::lemma_quoted_concat(json::escaped_all(text.drop_last()), last, '"', false);
    }
}

} // verus!
