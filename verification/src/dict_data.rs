use vstd::prelude::*;

verus! {

/// Simplified to traditional characters.
pub const ST_CHARACTERS: &'static str = "汉\t漢\n语\t語\n视\t視\n频\t頻\n软\t軟\n进\t進\n间\t間\n线\t線\n数\t數\n据\t據\n库\t庫\n电\t電\n邮\t郵\n网\t網\n络\t絡\n务\t務\n应\t應\n关\t關\n镜\t鏡\n质\t質\n户\t戶\n认\t認\n创\t創\n实\t實\n现\t現\n运\t運\n发\t發\n档\t檔\n统\t統\n剑\t劍\n点\t點\n伤\t傷\n结\t結\n构\t構\n响\t響\n编\t編\n头\t頭\n环\t環\n类\t類\n项\t項\n设\t設\n迁\t遷\n脚\t腳\n调\t調\n内\t內\n栈\t棧\n适\t適\n钧\t鈞\n触\t觸\n单\t單\n个\t個\n夹\t夾\n录\t錄\n载\t載\n请\t請\n湾\t灣\n叠\t疊\n试\t試\n显\t顯\n断\t斷\n缓\t緩\n业\t業\n义\t義\n国\t國\n时\t時\n说\t說\n对\t對\n会\t會\n书\t書\n见\t見\n长\t長\n门\t門\n们\t們\n为\t為\n这\t這\n来\t來\n学\t學\n问\t問\n车\t車\n马\t馬\n鱼\t魚\n鸟\t鳥\n东\t東\n乐\t樂\n汇\t匯\n爱\t愛\n体\t體\n机\t機\n译\t譯\n读\t讀\n写\t寫\n图\t圖\n节\t節\n变\t變\n观\t觀\n复\t復\n";

/// Simplified to traditional phrases.
pub const ST_PHRASES: &'static str = "千钧一发\t千鈞一髮\n日志\t日誌\n头发\t頭髮\n理发\t理髮\n白发\t白髮\n一干二净\t一乾二淨\n皇后\t皇后\n后来\t後來\n以后\t以後\n面条\t麵條\n复杂\t複雜\n重复\t重複\n";

/// Traditional to simplified characters.
pub const TS_CHARACTERS: &'static str = "漢\t汉\n語\t语\n視\t视\n頻\t频\n軟\t软\n進\t进\n間\t间\n線\t线\n數\t数\n據\t据\n庫\t库\n電\t电\n郵\t邮\n網\t网\n絡\t络\n務\t务\n應\t应\n關\t关\n鏡\t镜\n質\t质\n戶\t户\n認\t认\n創\t创\n實\t实\n現\t现\n運\t运\n發\t发\n髮\t发\n檔\t档\n統\t统\n劍\t剑\n點\t点\n傷\t伤\n結\t结\n構\t构\n響\t响\n編\t编\n頭\t头\n環\t环\n類\t类\n項\t项\n設\t设\n遷\t迁\n腳\t脚\n調\t调\n內\t内\n棧\t栈\n適\t适\n鈞\t钧\n觸\t触\n單\t单\n個\t个\n夾\t夹\n錄\t录\n載\t载\n請\t请\n灣\t湾\n疊\t叠\n試\t试\n顯\t显\n斷\t断\n緩\t缓\n業\t业\n義\t义\n國\t国\n時\t时\n說\t说\n對\t对\n會\t会\n書\t书\n見\t见\n長\t长\n門\t门\n們\t们\n為\t为\n這\t这\n來\t来\n學\t学\n問\t问\n車\t车\n馬\t马\n魚\t鱼\n鳥\t鸟\n東\t东\n樂\t乐\n匯\t汇\n愛\t爱\n體\t体\n機\t机\n譯\t译\n讀\t读\n寫\t写\n圖\t图\n節\t节\n變\t变\n觀\t观\n專\t专\n誌\t志\n後\t后\n麵\t面\n複\t复\n復\t复\n乾\t干\n淨\t净\n憶\t忆\n繪\t绘\n記\t记\n卡\t卡\n疊\t叠\n介\t介\n";

/// Traditional to simplified phrases.
pub const TS_PHRASES: &'static str = "乾隆\t乾隆\n乾坤\t乾坤\n著作\t著作\n瞭解\t了解\n藉口\t借口\n";

/// Traditional characters to their Taiwan forms.
pub const TW_VARIANTS: &'static str = "僞\t偽\n啓\t啟\n喫\t吃\n嫺\t嫻\n嬀\t媯\n峯\t峰\n幺\t么\n擡\t抬\n棱\t稜\n為\t為\n爲\t為\n牀\t床\n綫\t線\n羣\t群\n衆\t眾\n説\t說\n衞\t衛\n裏\t裡\n鉢\t缽\n麪\t麵\n黴\t霉\n粘土\t黏土\n着\t著\n";

/// Taiwan character forms to traditional characters.
pub const TW_VARIANTS_REV: &'static str = "偽\t僞\n啟\t啓\n吃\t喫\n嫻\t嫺\n媯\t嬀\n峰\t峯\n么\t幺\n抬\t擡\n稜\t棱\n為\t爲\n床\t牀\n線\t綫\n群\t羣\n眾\t衆\n說\t説\n衛\t衞\n裡\t裏\n缽\t鉢\n麵\t麪\n霉\t黴\n著\t着\n";

/// Taiwan phrase forms to traditional phrases.
pub const TW_VARIANTS_REV_PHRASES: &'static str = "一口吃個\t一口喫個\n吃口令\t喫口令\n吃癟\t喫癟\n吃虧\t喫虧\n裡裡外外\t裏裏外外\n黏土\t粘土\n";

/// Traditional phrases to the terms preferred in Taiwan (project dictionary).
pub const TW_PHRASES_CUSTOM: &'static str = "視頻\t影片\n音頻\t音訊\n軟件\t軟體\n硬件\t硬體\n程序\t程式\n進程\t行程\n通信\t通訊\n線程\t執行緒\n數據\t資料\n數據庫\t資料庫\n網絡\t網路\n信息\t資訊\n質量\t品質\n用戶\t使用者\n默認\t預設\n創建\t建立\n實現\t實作\n運行\t執行\n發布\t發表\n屏幕\t螢幕\n界面\t介面\n文檔\t文件\n操作系統\t作業系統\n劍指\t針對\n痛點\t要害\n硬傷\t罩門\n命令行\t命令列\n響應\t回應\n響應頭\t回應標頭\n編程\t程式設計\n平台庫\t平台函式庫\n循環\t迴圈\n類\t類別\n腳本\t指令碼\n教程\t課程\n項目文件夾\t專案資料夾\n項目的\t專案的\n項目目錄\t專案目錄\n項目管理\t專案管理\n項目設置\t專案設定\n控制台打印\t輸出到 Console\n日誌\t記錄\n元數據\tMetadata\n加載\t載入\n支持\t支援\n配置文件\t組態檔\n調試器\t偵錯工具\n調用\t呼叫\n堆棧\t堆疊\n斷點\t中斷點\n緩存\t快取\n";

/// Terms preferred in Taiwan to traditional phrases (project dictionary).
pub const TW_PHRASES_CUSTOM_REV: &'static str = "影片\t視頻\n音訊\t音頻\n軟體\t軟件\n硬體\t硬件\n程式\t程序\n行程\t進程\n通訊\t通信\n執行緒\t線程\n資料\t數據\n資料庫\t數據庫\n網路\t網絡\n資訊\t信息\n品質\t質量\n使用者\t用戶\n預設\t默認\n建立\t創建\n實作\t實現\n執行\t運行\n發表\t發布\n螢幕\t屏幕\n介面\t界面\n作業系統\t操作系統\n針對\t劍指\n要害\t痛點\n罩門\t硬傷\n命令列\t命令行\n回應\t響應\n回應標頭\t響應頭\n程式設計\t編程\n平台函式庫\t平台庫\n迴圈\t循環\n類別\t類\n指令碼\t腳本\n課程\t教程\n專案資料夾\t項目文件夾\n專案的\t項目的\n專案目錄\t項目目錄\n專案管理\t項目管理\n專案設定\t項目設置\n輸出到 Console\t控制台打印\n記錄\t日誌\nMetadata\t元數據\n載入\t加載\n支援\t支持\n組態檔\t配置文件\n偵錯工具\t調試器\n呼叫\t調用\n堆疊\t堆棧\n中斷點\t斷點\n快取\t緩存\n";

/// Information technology terms used in Taiwan.
pub const TW_PHRASES_IT: &'static str = "寬帶\t頻寬\n帶寬\t頻寬\n互聯網\t網際網路\n服務器\t伺服器\n數據庫\t資料庫\n軟件\t軟體\n硬件\t硬體\n程序\t程式\n內存\t記憶體\n鼠標\t滑鼠\n網絡\t網路\n信息\t資訊\n文件夾\t資料夾\n默認\t預設\n打印\t列印\n";

/// Proper names as written in Taiwan.
pub const TW_PHRASES_NAME: &'static str = "奧巴馬\t歐巴馬\n特朗普\t川普\n悉尼\t雪梨\n新西蘭\t紐西蘭\n意大利\t義大利\n";

/// Other terms used in Taiwan.
pub const TW_PHRASES_OTHER: &'static str = "出租車\t計程車\n的士\t計程車\n自行車\t腳踏車\n公交車\t公車\n酸奶\t優酪乳\n土豆\t馬鈴薯\n熊貓\t貓熊\n";

/// Terms used in Taiwan to traditional phrases.
pub const TW_PHRASES_REV: &'static str = "頻寬\t帶寬\n網際網路\t互聯網\n伺服器\t服務器\n資料庫\t數據庫\n軟體\t軟件\n硬體\t硬件\n程式\t程序\n記憶體\t內存\n滑鼠\t鼠標\n網路\t網絡\n資訊\t信息\n資料夾\t文件夾\n預設\t默認\n列印\t打印\n歐巴馬\t奧巴馬\n川普\t特朗普\n雪梨\t悉尼\n紐西蘭\t新西蘭\n義大利\t意大利\n計程車\t出租車\n腳踏車\t自行車\n公車\t公交車\n優酪乳\t酸奶\n馬鈴薯\t土豆\n貓熊\t熊貓\n";

/// Traditional characters to their Hong Kong forms.
pub const HK_VARIANTS: &'static str = "僞\t偽\n兌\t兑\n叄\t叁\n只\t只\n啓\t啓\n喫\t吃\n囪\t囱\n妝\t妝\n媼\t媪\n嬀\t嬀\n悅\t悦\n慍\t愠\n戶\t户\n挩\t捝\n搵\t揾\n擡\t抬\n敓\t敚\n敘\t敍\n晉\t晋\n溫\t温\n爲\t為\n牀\t牀\n痩\t瘦\n眾\t衆\n稅\t税\n竈\t灶\n糉\t粽\n綠\t緑\n纔\t才\n脫\t脱\n蔥\t葱\n衛\t衞\n裏\t裏\n說\t説\n蛻\t蜕\n覈\t核\n鉤\t鈎\n銳\t鋭\n閱\t閲\n鰮\t鰛\n麪\t麵\n";

/// Hong Kong character forms to traditional characters.
pub const HK_VARIANTS_REV: &'static str = "偽\t僞\n兑\t兌\n叁\t叄\n吃\t喫\n囱\t囪\n媪\t媼\n悦\t悅\n愠\t慍\n户\t戶\n捝\t挩\n揾\t搵\n抬\t擡\n敚\t敓\n敍\t敘\n晋\t晉\n温\t溫\n為\t爲\n瘦\t痩\n衆\t眾\n税\t稅\n灶\t竈\n粽\t糉\n緑\t綠\n才\t纔\n脱\t脫\n葱\t蔥\n衞\t衛\n説\t說\n蜕\t蛻\n核\t覈\n鈎\t鉤\n鋭\t銳\n閲\t閱\n鰛\t鰮\n麵\t麪\n";

/// Hong Kong phrase forms to traditional phrases.
pub const HK_VARIANTS_REV_PHRASES: &'static str = "一口吃個\t一口喫個\n吃口令\t喫口令\n吃癟\t喫癟\n吃虧\t喫虧\n鈎心鬥角\t鉤心鬥角\n鈎針\t鉤針\n鈎子\t鉤子\n";

/// Traditional characters to their Japanese forms.
pub const JP_VARIANTS: &'static str = "乘\t乗\n亂\t乱\n亙\t亘\n亞\t亜\n佛\t仏\n來\t来\n假\t仮\n傳\t伝\n僞\t偽\n價\t価\n儉\t倹\n兒\t児\n內\t内\n兩\t両\n劍\t剣\n劑\t剤\n勞\t労\n勳\t勲\n區\t区\n卻\t却\n單\t単\n圖\t図\n團\t団\n國\t国\n學\t学\n實\t実\n對\t対\n會\t会\n樂\t楽\n檢\t検\n氣\t気\n澤\t沢\n畫\t画\n發\t発\n盡\t尽\n經\t経\n聲\t声\n舊\t旧\n處\t処\n號\t号\n變\t変\n讀\t読\n賣\t売\n轉\t転\n輕\t軽\n醫\t医\n釋\t釈\n鐵\t鉄\n關\t関\n靜\t静\n點\t点\n黨\t党\n";

/// Japanese character forms to traditional characters.
pub const JP_VARIANTS_REV: &'static str = "乗\t乘\n乱\t亂\n亘\t亙\n亜\t亞\n仏\t佛\n来\t來\n仮\t假\n伝\t傳\n偽\t僞\n価\t價\n倹\t儉\n児\t兒\n内\t內\n両\t兩\n剣\t劍\n剤\t劑\n労\t勞\n勲\t勳\n区\t區\n却\t卻\n単\t單\n図\t圖\n団\t團\n国\t國\n学\t學\n実\t實\n対\t對\n会\t會\n楽\t樂\n検\t檢\n気\t氣\n沢\t澤\n画\t畫\n発\t發\n尽\t盡\n経\t經\n声\t聲\n旧\t舊\n処\t處\n号\t號\n変\t變\n読\t讀\n売\t賣\n転\t轉\n軽\t輕\n医\t醫\n釈\t釋\n鉄\t鐵\n関\t關\n静\t靜\n点\t點\n党\t黨\n";

/// Japanese shinjitai characters to traditional characters.
pub const JP_SHINJITAI_CHARACTERS: &'static str = "両\t兩\n乗\t乘\n乱\t亂\n亜\t亞\n仏\t佛\n伝\t傳\n価\t價\n倹\t儉\n児\t兒\n剣\t劍\n剤\t劑\n労\t勞\n勲\t勳\n区\t區\n単\t單\n図\t圖\n団\t團\n実\t實\n対\t對\n楽\t樂\n検\t檢\n気\t氣\n沢\t澤\n画\t畫\n発\t發\n尽\t盡\n経\t經\n声\t聲\n旧\t舊\n処\t處\n変\t變\n読\t讀\n売\t賣\n転\t轉\n軽\t輕\n医\t醫\n釈\t釋\n鉄\t鐵\n関\t關\n静\t靜\n党\t黨\n";

/// Japanese shinjitai phrases to traditional phrases.
pub const JP_SHINJITAI_PHRASES: &'static str = "一獲千金\t一攫千金\n丁寧\t叮嚀\n交差\t交叉\n印刷\t印刷\n意向\t意嚮\n格好\t恰好\n決起\t蹶起\n知恵\t智慧\n連合\t聯合\n";

/// More traditional phrases to the terms preferred in Taiwan.
pub const TW_PHRASES_CUSTOM_EXTRA: &'static str = "\n網絡服務\t網路服務\n應用程序網關\t應用程式閘道\n鏡像文件\t映像檔\n保存更改\t儲存變更\n台球桌\t撞球桌\n文件名\t檔名\n文件系統\t檔案系統\n文件描述符\t檔案描述子\n函數調用\t函式呼叫\n渲染管線\t算繪管線\n內存分配\t記憶體配置\n網絡棧\t網路堆疊\n網絡適配器\t網路介面卡\n";

/// More terms preferred in Taiwan to traditional phrases.
pub const TW_PHRASES_CUSTOM_EXTRA_REV: &'static str = "\n網路服務\t網絡服務\n應用程式閘道\t應用程序網關\n映像檔\t鏡像文件\n儲存變更\t保存更改\n撞球桌\t台球桌\n檔名\t文件名\n檔案系統\t文件系統\n檔案描述子\t文件描述符\n函式呼叫\t函數調用\n算繪管線\t渲染管線\n記憶體配置\t內存分配\n網路堆疊\t網絡棧\n網路介面卡\t網絡適配器\n";

} // verus!
